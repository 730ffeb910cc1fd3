//! Test suites of the instance.

use vstd::prelude::*;

use crate::error::text_option;
use crate::flags::WaitArgs;
use crate::json::{Doc, Json};
use crate::request::{
    get, no_query, param_in, param_option, push_flag, with_body, with_flag, with_param, Call,
    Method, Request,
};

verus! {

/// The commands on test suites.
#[derive(Debug)]
pub enum AtfSub {
    Run(AtfRunArgs),
    Results(AtfResultsArgs),
}

/// The flags of a run.
#[derive(Debug)]
pub struct AtfRunArgs {
    pub suite_id: Option<String>,
    pub suite_name: Option<String>,
    pub browser_name: Option<String>,
    pub browser_version: Option<String>,
    pub os_name: Option<String>,
    pub os_version: Option<String>,
    pub run_in_cloud: bool,
    pub performance_run: bool,
    pub wait: WaitArgs,
}

/// The flags of a look at results.
#[derive(Debug)]
pub struct AtfResultsArgs {
    pub result_id: String,
}

impl AtfRunArgs {
    /// The parameters: one for each flag that was given.
    pub open spec fn params(self) -> Seq<(Seq<char>, Seq<char>)> {
        let q = with_param(Seq::empty(), "test_suite_sys_id"@, text_option(self.suite_id));
        let q = with_param(q, "test_suite_name"@, text_option(self.suite_name));
        let q = with_param(q, "browser_name"@, text_option(self.browser_name));
        let q = with_param(q, "browser_version"@, text_option(self.browser_version));
        let q = with_param(q, "os_name"@, text_option(self.os_name));
        let q = with_param(q, "os_version"@, text_option(self.os_version));
        let q = with_flag(q, "run_in_cloud"@, self.run_in_cloud);
        with_flag(q, "performance_run"@, self.performance_run)
    }
}

/// The request that runs a suite.
pub fn run(args: &AtfRunArgs) -> (r: Request)
    ensures
        r@ == (Call {
            method: Method::Post,
            path: "/api/sn_cicd/testsuite/run"@,
            query: args.params(),
            body: Some(Doc::Object(Map::empty())),
        }),
{
    let mut q = no_query();
    param_option(&mut q, "test_suite_sys_id", &args.suite_id);
    param_option(&mut q, "test_suite_name", &args.suite_name);
    param_option(&mut q, "browser_name", &args.browser_name);
    param_option(&mut q, "browser_version", &args.browser_version);
    param_option(&mut q, "os_name", &args.os_name);
    param_option(&mut q, "os_version", &args.os_version);
    push_flag(&mut q, "run_in_cloud", args.run_in_cloud);
    push_flag(&mut q, "performance_run", args.performance_run);
    let none: Vec<(String, Json)> = Vec::new();
    with_body(Method::Post, "/api/sn_cicd/testsuite/run".to_owned(), q, Json::Object(none))
}

/// The request for the results of a run.
pub fn results(args: &AtfResultsArgs) -> (r: Request)
    ensures
        r@ == (Call {
            method: Method::Get,
            path: "/api/sn_cicd/testsuite/results/"@ + args.result_id@,
            query: Seq::empty(),
            body: None,
        }),
{
    get(
        "/api/sn_cicd/testsuite/results/".to_owned().concat(args.result_id.as_str()),
        no_query(),
    )
}

/// The flags of a run go into the parameters that are named after them.
pub proof fn a_run_carries_its_flags(a: AtfRunArgs)
    ensures
        param_in(a.params(), "test_suite_sys_id"@) == text_option(a.suite_id),
        param_in(a.params(), "test_suite_name"@) == text_option(a.suite_name),
        param_in(a.params(), "browser_name"@) == text_option(a.browser_name),
        param_in(a.params(), "browser_version"@) == text_option(a.browser_version),
        param_in(a.params(), "os_name"@) == text_option(a.os_name),
        param_in(a.params(), "os_version"@) == text_option(a.os_version),
        param_in(a.params(), "run_in_cloud"@) is Some <==> a.run_in_cloud,
        param_in(a.params(), "performance_run"@) is Some <==> a.performance_run,
{
    broadcast use {
        crate::request::lemma_param_with,
        crate::request::lemma_param_flag,
        crate::request::lemma_param_none,
        crate::request::lemma_param_push,
    };

    reveal_strlit("test_suite_sys_id");
    reveal_strlit("test_suite_name");
    reveal_strlit("browser_name");
    reveal_strlit("browser_version");
    reveal_strlit("os_name");
    reveal_strlit("os_version");
    reveal_strlit("run_in_cloud");
    reveal_strlit("performance_run");
    assert("test_suite_sys_id"@.len() == 17 && "test_suite_name"@.len() == 15 && "browser_name"@.len() == 12 && "browser_version"@.len() == 15 && "os_name"@.len() == 7 && "os_version"@.len() == 10 && "run_in_cloud"@.len() == 12 && "performance_run"@.len() == 15);
    assert("test_suite_name"@[0] != "browser_version"@[0]);
    assert("test_suite_name"@[0] != "performance_run"@[0]);
    assert("browser_name"@[0] != "run_in_cloud"@[0]);
    assert("browser_version"@[0] != "performance_run"@[0]);
}

} // verus!

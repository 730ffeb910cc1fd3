//! Change requests.

use vstd::prelude::*;

use crate::draft::{read, reads, removal, removes, submit, writes, Draft, DraftBody, Sketch};
use crate::error::{text_option, Error, Fault};
use crate::flags::{display_option, BodyArgs, DisplayValueOpt, EmptyBody, Paging, SetLimit};
use crate::query::param_display;
use crate::request::{
    no_query, number_option, pairs, param_in, param_number, param_number_option, param_option,
    push_flag, with_flag, with_param, Method,
};
use crate::text::digits;

verus! {

/// The commands on change requests.
#[derive(Debug)]
pub enum ChangeSub {
    List(ChangeListArgs),
    Get(ChangeGetArgs),
    Create(ChangeCreateArgs),
    Update(ChangeUpdateArgs),
    Delete(ChangeDeleteArgs),
    Nextstates(ChangeSysIdArg),
    Approvals(ChangeApprovalsArgs),
    Risk(ChangeRiskArgs),
    Schedule(ChangeSysIdArg),
    Task(ChangeTaskSub),
    Ci(ChangeCiSub),
    Conflict(ChangeConflictSub),
    Models(ChangeOptionalIdArg),
    Templates(ChangeOptionalIdArg),
}

/// The type of a change request.
#[derive(Debug, Clone, Copy, PartialEq, Eq, Structural)]
pub enum ChangeType {
    Normal,
    Emergency,
    Standard,
}

/// The flags of a list.
#[derive(Debug)]
pub struct ChangeListArgs {
    pub change_type: Option<ChangeType>,
    pub query: Option<String>,
    pub fields: Option<String>,
    pub paging: Paging<1000>,
    pub display_value: DisplayValueOpt,
    pub exclude_reference_link: bool,
    pub view: Option<String>,
}

/// The flags of a read.
#[derive(Debug)]
pub struct ChangeGetArgs {
    pub sys_id: String,
    pub change_type: Option<ChangeType>,
    pub fields: Option<String>,
    pub display_value: DisplayValueOpt,
    pub exclude_reference_link: bool,
    pub view: Option<String>,
}

/// The flags of a creation.
#[derive(Debug)]
pub struct ChangeCreateArgs {
    pub change_type: ChangeType,
    pub template: Option<String>,
    pub body: BodyArgs,
    pub fields: Option<String>,
    pub display_value: DisplayValueOpt,
}

/// The flags of an update.
#[derive(Debug)]
pub struct ChangeUpdateArgs {
    pub sys_id: String,
    pub change_type: Option<ChangeType>,
    pub body: BodyArgs,
    pub fields: Option<String>,
    pub display_value: DisplayValueOpt,
}

/// The flags of a deletion.
#[derive(Debug)]
pub struct ChangeDeleteArgs {
    pub sys_id: String,
    pub change_type: Option<ChangeType>,
    pub yes: bool,
}

/// A change request.
#[derive(Debug)]
pub struct ChangeSysIdArg {
    pub sys_id: String,
}

/// One of a kind, or all of them.
#[derive(Debug)]
pub struct ChangeOptionalIdArg {
    pub sys_id: Option<String>,
}

/// The flags of an approval.
#[derive(Debug)]
pub struct ChangeApprovalsArgs {
    pub sys_id: String,
    pub body: BodyArgs,
}

/// The flags of a risk assessment.
#[derive(Debug)]
pub struct ChangeRiskArgs {
    pub sys_id: String,
    pub body: BodyArgs,
}

/// The commands on the tasks of a change request.
#[derive(Debug)]
pub enum ChangeTaskSub {
    List(ChangeTaskListArgs),
    Get(ChangeTaskGetArgs),
    Create(ChangeTaskCreateArgs),
    Update(ChangeTaskUpdateArgs),
    Delete(ChangeTaskDeleteArgs),
}

/// The flags of a list of tasks.
#[derive(Debug)]
pub struct ChangeTaskListArgs {
    pub change_sys_id: String,
    pub fields: Option<String>,
    pub limit: SetLimit<100>,
}

/// A task.
#[derive(Debug)]
pub struct ChangeTaskGetArgs {
    pub change_sys_id: String,
    pub task_sys_id: String,
}

/// The flags of the creation of a task.
#[derive(Debug)]
pub struct ChangeTaskCreateArgs {
    pub change_sys_id: String,
    pub body: BodyArgs,
}

/// The flags of the update of a task.
#[derive(Debug)]
pub struct ChangeTaskUpdateArgs {
    pub change_sys_id: String,
    pub task_sys_id: String,
    pub body: BodyArgs,
}

/// The flags of the deletion of a task.
#[derive(Debug)]
pub struct ChangeTaskDeleteArgs {
    pub change_sys_id: String,
    pub task_sys_id: String,
    pub yes: bool,
}

/// The commands on the configuration items of a change request.
#[derive(Debug)]
pub enum ChangeCiSub {
    List(ChangeSysIdArg),
    Add(ChangeCiAddArgs),
}

/// The flags of the addition of a configuration item.
#[derive(Debug)]
pub struct ChangeCiAddArgs {
    pub change_sys_id: String,
    pub body: BodyArgs,
}

/// The commands on the conflicts of a change request.
#[derive(Debug)]
pub enum ChangeConflictSub {
    Get(ChangeSysIdArg),
    Add(ChangeConflictAddArgs),
    Remove(ChangeConflictRemoveArgs),
}

/// The flags of the removal of conflicts.
#[derive(Debug)]
pub struct ChangeConflictRemoveArgs {
    pub sys_id: String,
    pub yes: bool,
}

/// The flags of the addition of a conflict.
#[derive(Debug)]
pub struct ChangeConflictAddArgs {
    pub sys_id: String,
    pub body: BodyArgs,
}

/// The path of a type of change requests.
pub open spec fn base(ct: Option<ChangeType>) -> Seq<char> {
    match ct {
        Some(ChangeType::Normal) => "/api/sn_chg_rest/change/normal"@,
        Some(ChangeType::Emergency) => "/api/sn_chg_rest/change/emergency"@,
        Some(ChangeType::Standard) => "/api/sn_chg_rest/change/standard"@,
        None => "/api/sn_chg_rest/change"@,
    }
}

/// The path of a type of change requests.
fn base_path(ct: Option<ChangeType>) -> (r: &'static str)
    ensures
        r@ == base(ct),
{
    match ct {
        Some(ChangeType::Normal) => "/api/sn_chg_rest/change/normal",
        Some(ChangeType::Emergency) => "/api/sn_chg_rest/change/emergency",
        Some(ChangeType::Standard) => "/api/sn_chg_rest/change/standard",
        None => "/api/sn_chg_rest/change",
    }
}

/// The path of a part of a change request.
pub open spec fn part(sys_id: Seq<char>, tail: Seq<char>) -> Seq<char> {
    "/api/sn_chg_rest/change/"@ + sys_id + tail
}

/// The path of a part of a change request.
fn part_path(sys_id: &String, tail: &str) -> (r: String)
    ensures
        r@ == part(sys_id@, tail@),
{
    "/api/sn_chg_rest/change/".to_owned().concat(sys_id.as_str()).concat(tail)
}

/// The path of a task.
pub open spec fn task_path(change: Seq<char>, task: Seq<char>) -> Seq<char> {
    "/api/sn_chg_rest/change/"@ + change + "/task/"@ + task
}

/// The path of a task.
fn path_of_task(change: &String, task: &String) -> (r: String)
    ensures
        r@ == task_path(change@, task@),
{
    "/api/sn_chg_rest/change/".to_owned().concat(change.as_str()).concat("/task/").concat(
        task.as_str(),
    )
}

/// The parameters of what a write gives back.
pub open spec fn answer_params(fields: Option<String>, dv: DisplayValueOpt) -> Seq<
    (Seq<char>, Seq<char>),
> {
    with_param(
        with_param(Seq::empty(), "sysparm_fields"@, text_option(fields)),
        "sysparm_display_value"@,
        display_option(dv.display_value),
    )
}

/// The parameters of what a write gives back.
fn answer_query(fields: &Option<String>, dv: &DisplayValueOpt) -> (r: Vec<(String, String)>)
    ensures
        pairs(r@) == answer_params(*fields, *dv),
{
    let mut q = no_query();
    param_option(&mut q, "sysparm_fields", fields);
    param_display(&mut q, "sysparm_display_value", dv.display_value);
    q
}

impl ChangeListArgs {
    /// The parameters: one for each flag that was given, and the limit always.
    pub open spec fn params(self) -> Seq<(Seq<char>, Seq<char>)> {
        let q = with_param(Seq::empty(), "sysparm_query"@, text_option(self.query));
        let q = with_param(q, "sysparm_fields"@, text_option(self.fields));
        let q = q.push(("sysparm_limit"@, digits(self.paging.limit.setlimit as nat)));
        let q = with_param(q, "sysparm_offset"@, number_option(self.paging.offset));
        let q = with_param(
            q,
            "sysparm_display_value"@,
            display_option(self.display_value.display_value),
        );
        let q = with_flag(q, "sysparm_exclude_reference_link"@, self.exclude_reference_link);
        with_param(q, "sysparm_view"@, text_option(self.view))
    }
}

/// Lists change requests.
pub fn list(args: &ChangeListArgs) -> (r: Draft)
    ensures
        r@ == reads(base(args.change_type), args.params()),
{
    let mut q = no_query();
    param_option(&mut q, "sysparm_query", &args.query);
    param_option(&mut q, "sysparm_fields", &args.fields);
    param_number(&mut q, "sysparm_limit", args.paging.setlimit());
    param_number_option(&mut q, "sysparm_offset", args.paging.offset);
    param_display(&mut q, "sysparm_display_value", args.display_value.display_value);
    push_flag(&mut q, "sysparm_exclude_reference_link", args.exclude_reference_link);
    param_option(&mut q, "sysparm_view", &args.view);
    read(base_path(args.change_type).to_owned(), q)
}

impl ChangeGetArgs {
    /// The parameters: one for each flag that was given.
    pub open spec fn params(self) -> Seq<(Seq<char>, Seq<char>)> {
        with_param(
            with_flag(
                answer_params(self.fields, self.display_value),
                "sysparm_exclude_reference_link"@,
                self.exclude_reference_link,
            ),
            "sysparm_view"@,
            text_option(self.view),
        )
    }
}

/// Reads a change request.
pub fn get(args: &ChangeGetArgs) -> (r: Draft)
    ensures
        r@ == reads(base(args.change_type) + "/"@ + args.sys_id@, args.params()),
{
    let path = base_path(args.change_type).to_owned().concat("/").concat(args.sys_id.as_str());
    let mut q = answer_query(&args.fields, &args.display_value);
    push_flag(&mut q, "sysparm_exclude_reference_link", args.exclude_reference_link);
    param_option(&mut q, "sysparm_view", &args.view);
    read(path, q)
}

/// What a creation comes to. A standard change needs a template.
pub open spec fn create_sketch(args: ChangeCreateArgs) -> Result<Sketch, Fault> {
    let path = match (args.change_type, args.template) {
        (ChangeType::Standard, Some(t)) => Some("/api/sn_chg_rest/change/standard/"@ + t@),
        (ChangeType::Standard, None) => None,
        (ct, _) => Some(base(Some(ct))),
    };
    match path {
        None => Err(Fault::Usage("--template is required for --type standard"@)),
        Some(path) => Ok(
            writes(
                Method::Post,
                path,
                answer_params(args.fields, args.display_value),
                args.body,
                EmptyBody::Object,
            ),
        ),
    }
}

/// Creates a change request. A standard one needs a template.
pub fn create(args: ChangeCreateArgs) -> (r: Result<Draft, Error>)
    ensures
        match create_sketch(args) {
            Ok(s) => r matches Ok(d) && d@ == s,
            Err(f) => r matches Err(e) && e@ == f,
        },
{
    let path = match args.change_type {
        ChangeType::Standard => match &args.template {
            Some(t) => "/api/sn_chg_rest/change/standard/".to_owned().concat(t.as_str()),
            None => {
                return Err(
                    Error::Usage("--template is required for --type standard".to_owned()),
                );
            },
        },
        _ => base_path(Some(args.change_type)).to_owned(),
    };
    let q = answer_query(&args.fields, &args.display_value);
    Ok(submit(Method::Post, path, q, args.body, EmptyBody::Object))
}

/// Updates a change request.
pub fn update(args: ChangeUpdateArgs) -> (r: Draft)
    ensures
        r@ == writes(
            Method::Patch,
            base(args.change_type) + "/"@ + args.sys_id@,
            answer_params(args.fields, args.display_value),
            args.body,
            EmptyBody::Reject,
        ),
{
    let path = base_path(args.change_type).to_owned().concat("/").concat(args.sys_id.as_str());
    let q = answer_query(&args.fields, &args.display_value);
    submit(Method::Patch, path, q, args.body, EmptyBody::Reject)
}

/// Deletes a change request.
pub fn delete(args: &ChangeDeleteArgs) -> (r: Draft)
    ensures
        r@ == removes(
            args.yes,
            "delete"@,
            "change "@ + args.sys_id@,
            base(args.change_type) + "/"@ + args.sys_id@,
        ),
{
    let path = base_path(args.change_type).to_owned().concat("/").concat(args.sys_id.as_str());
    removal(args.yes, "delete", "change ".to_owned().concat(args.sys_id.as_str()), path)
}

/// Reads the states that a change request can go to.
pub fn nextstates(args: &ChangeSysIdArg) -> (r: Draft)
    ensures
        r@ == reads(part(args.sys_id@, "/nextstates"@), Seq::empty()),
{
    read(part_path(&args.sys_id, "/nextstates"), no_query())
}

/// Sets the approval of a change request.
pub fn approvals(args: ChangeApprovalsArgs) -> (r: Draft)
    ensures
        r@ == writes(
            Method::Patch,
            part(args.sys_id@, "/approvals"@),
            Seq::empty(),
            args.body,
            EmptyBody::Reject,
        ),
{
    let path = part_path(&args.sys_id, "/approvals");
    submit(Method::Patch, path, no_query(), args.body, EmptyBody::Reject)
}

/// Sets the risk of a change request.
pub fn risk(args: ChangeRiskArgs) -> (r: Draft)
    ensures
        r@ == writes(
            Method::Patch,
            part(args.sys_id@, "/risk"@),
            Seq::empty(),
            args.body,
            EmptyBody::Reject,
        ),
{
    let path = part_path(&args.sys_id, "/risk");
    submit(Method::Patch, path, no_query(), args.body, EmptyBody::Reject)
}

/// Reads the schedule of a change request.
pub fn schedule(args: &ChangeSysIdArg) -> (r: Draft)
    ensures
        r@ == reads(part(args.sys_id@, "/schedule"@), Seq::empty()),
{
    read(part_path(&args.sys_id, "/schedule"), no_query())
}

/// The path of one of a kind, or of all of them.
pub open spec fn one_or_all(start: Seq<char>, id: Option<Seq<char>>) -> Seq<char> {
    match id {
        Some(id) => start + "/"@ + id,
        None => start,
    }
}

/// The path of one of a kind, or of all of them.
fn path_of_some(start: &str, id: &Option<String>) -> (r: String)
    ensures
        r@ == one_or_all(start@, text_option(*id)),
{
    match id {
        Some(id) => start.to_owned().concat("/").concat(id.as_str()),
        None => start.to_owned(),
    }
}

/// Reads change models.
pub fn models(args: &ChangeOptionalIdArg) -> (r: Draft)
    ensures
        r@ == reads(
            one_or_all("/api/sn_chg_rest/change/model"@, text_option(args.sys_id)),
            Seq::empty(),
        ),
{
    read(path_of_some("/api/sn_chg_rest/change/model", &args.sys_id), no_query())
}

/// Reads the templates of standard changes.
pub fn templates(args: &ChangeOptionalIdArg) -> (r: Draft)
    ensures
        r@ == reads(
            one_or_all("/api/sn_chg_rest/change/standard/template"@, text_option(args.sys_id)),
            Seq::empty(),
        ),
{
    read(path_of_some("/api/sn_chg_rest/change/standard/template", &args.sys_id), no_query())
}

/// What a command on tasks comes to.
pub open spec fn task_sketch(sub: ChangeTaskSub) -> Sketch {
    match sub {
        ChangeTaskSub::List(a) => reads(
            part(a.change_sys_id@, "/task"@),
            with_param(Seq::empty(), "sysparm_fields"@, text_option(a.fields)).push(
                ("sysparm_limit"@, digits(a.limit.setlimit as nat)),
            ),
        ),
        ChangeTaskSub::Get(a) => reads(
            task_path(a.change_sys_id@, a.task_sys_id@),
            Seq::empty(),
        ),
        ChangeTaskSub::Create(a) => writes(
            Method::Post,
            part(a.change_sys_id@, "/task"@),
            Seq::empty(),
            a.body,
            EmptyBody::Object,
        ),
        ChangeTaskSub::Update(a) => writes(
            Method::Patch,
            task_path(a.change_sys_id@, a.task_sys_id@),
            Seq::empty(),
            a.body,
            EmptyBody::Reject,
        ),
        ChangeTaskSub::Delete(a) => removes(
            a.yes,
            "delete"@,
            "task "@ + a.task_sys_id@ + " on change "@ + a.change_sys_id@,
            task_path(a.change_sys_id@, a.task_sys_id@),
        ),
    }
}

/// The commands on tasks.
pub fn task(sub: ChangeTaskSub) -> (r: Draft)
    ensures
        r@ == task_sketch(sub),
{
    match sub {
        ChangeTaskSub::List(a) => {
            let mut q = no_query();
            param_option(&mut q, "sysparm_fields", &a.fields);
            param_number(&mut q, "sysparm_limit", a.limit.setlimit);
            read(part_path(&a.change_sys_id, "/task"), q)
        },
        ChangeTaskSub::Get(a) => read(
            path_of_task(&a.change_sys_id, &a.task_sys_id),
            no_query(),
        ),
        ChangeTaskSub::Create(a) => {
            let path = part_path(&a.change_sys_id, "/task");
            submit(Method::Post, path, no_query(), a.body, EmptyBody::Object)
        },
        ChangeTaskSub::Update(a) => {
            let path = path_of_task(&a.change_sys_id, &a.task_sys_id);
            submit(Method::Patch, path, no_query(), a.body, EmptyBody::Reject)
        },
        ChangeTaskSub::Delete(a) => {
            let what = "task ".to_owned().concat(a.task_sys_id.as_str()).concat(
                " on change ",
            ).concat(a.change_sys_id.as_str());
            removal(a.yes, "delete", what, path_of_task(&a.change_sys_id, &a.task_sys_id))
        },
    }
}

/// What a command on configuration items comes to.
pub open spec fn ci_sketch(sub: ChangeCiSub) -> Sketch {
    match sub {
        ChangeCiSub::List(a) => reads(part(a.sys_id@, "/ci"@), Seq::empty()),
        ChangeCiSub::Add(a) => writes(
            Method::Post,
            part(a.change_sys_id@, "/ci"@),
            Seq::empty(),
            a.body,
            EmptyBody::Reject,
        ),
    }
}

/// The commands on configuration items.
pub fn ci(sub: ChangeCiSub) -> (r: Draft)
    ensures
        r@ == ci_sketch(sub),
{
    match sub {
        ChangeCiSub::List(a) => read(part_path(&a.sys_id, "/ci"), no_query()),
        ChangeCiSub::Add(a) => {
            let path = part_path(&a.change_sys_id, "/ci");
            submit(Method::Post, path, no_query(), a.body, EmptyBody::Reject)
        },
    }
}

/// What a command on conflicts comes to. A removal takes all of them away, and is
/// named by its own verb.
pub open spec fn conflict_sketch(sub: ChangeConflictSub) -> Sketch {
    match sub {
        ChangeConflictSub::Get(a) => reads(part(a.sys_id@, "/conflict"@), Seq::empty()),
        ChangeConflictSub::Add(a) => writes(
            Method::Post,
            part(a.sys_id@, "/conflict"@),
            Seq::empty(),
            a.body,
            EmptyBody::Reject,
        ),
        ChangeConflictSub::Remove(a) => removes(
            a.yes,
            "remove"@,
            "all conflicts on change "@ + a.sys_id@,
            part(a.sys_id@, "/conflict"@),
        ),
    }
}

/// The commands on conflicts.
pub fn conflict(sub: ChangeConflictSub) -> (r: Draft)
    ensures
        r@ == conflict_sketch(sub),
{
    match sub {
        ChangeConflictSub::Get(a) => read(part_path(&a.sys_id, "/conflict"), no_query()),
        ChangeConflictSub::Add(a) => {
            let path = part_path(&a.sys_id, "/conflict");
            submit(Method::Post, path, no_query(), a.body, EmptyBody::Reject)
        },
        ChangeConflictSub::Remove(a) => {
            let what = "all conflicts on change ".to_owned().concat(a.sys_id.as_str());
            removal(a.yes, "remove", what, part_path(&a.sys_id, "/conflict"))
        },
    }
}

/// What a command on change requests comes to.
pub open spec fn sketch(sub: ChangeSub) -> Result<Sketch, Fault> {
    match sub {
        ChangeSub::List(a) => Ok(reads(base(a.change_type), a.params())),
        ChangeSub::Get(a) => Ok(reads(base(a.change_type) + "/"@ + a.sys_id@, a.params())),
        ChangeSub::Create(a) => create_sketch(a),
        ChangeSub::Update(a) => Ok(
            writes(
                Method::Patch,
                base(a.change_type) + "/"@ + a.sys_id@,
                answer_params(a.fields, a.display_value),
                a.body,
                EmptyBody::Reject,
            ),
        ),
        ChangeSub::Delete(a) => Ok(
            removes(
                a.yes,
                "delete"@,
                "change "@ + a.sys_id@,
                base(a.change_type) + "/"@ + a.sys_id@,
            ),
        ),
        ChangeSub::Nextstates(a) => Ok(reads(part(a.sys_id@, "/nextstates"@), Seq::empty())),
        ChangeSub::Approvals(a) => Ok(
            writes(
                Method::Patch,
                part(a.sys_id@, "/approvals"@),
                Seq::empty(),
                a.body,
                EmptyBody::Reject,
            ),
        ),
        ChangeSub::Risk(a) => Ok(
            writes(
                Method::Patch,
                part(a.sys_id@, "/risk"@),
                Seq::empty(),
                a.body,
                EmptyBody::Reject,
            ),
        ),
        ChangeSub::Schedule(a) => Ok(reads(part(a.sys_id@, "/schedule"@), Seq::empty())),
        ChangeSub::Task(a) => Ok(task_sketch(a)),
        ChangeSub::Ci(a) => Ok(ci_sketch(a)),
        ChangeSub::Conflict(a) => Ok(conflict_sketch(a)),
        ChangeSub::Models(a) => Ok(
            reads(
                one_or_all("/api/sn_chg_rest/change/model"@, text_option(a.sys_id)),
                Seq::empty(),
            ),
        ),
        ChangeSub::Templates(a) => Ok(
            reads(
                one_or_all(
                    "/api/sn_chg_rest/change/standard/template"@,
                    text_option(a.sys_id),
                ),
                Seq::empty(),
            ),
        ),
    }
}

/// Drafts a command on change requests.
pub fn draft(sub: ChangeSub) -> (r: Result<Draft, Error>)
    ensures
        match sketch(sub) {
            Ok(s) => r matches Ok(d) && d@ == s,
            Err(f) => r matches Err(e) && e@ == f,
        },
{
    Ok(
        match sub {
            ChangeSub::List(a) => list(&a),
            ChangeSub::Get(a) => get(&a),
            ChangeSub::Create(a) => {
                return create(a);
            },
            ChangeSub::Update(a) => update(a),
            ChangeSub::Delete(a) => delete(&a),
            ChangeSub::Nextstates(a) => nextstates(&a),
            ChangeSub::Approvals(a) => approvals(a),
            ChangeSub::Risk(a) => risk(a),
            ChangeSub::Schedule(a) => schedule(&a),
            ChangeSub::Task(a) => task(a),
            ChangeSub::Ci(a) => ci(a),
            ChangeSub::Conflict(a) => conflict(a),
            ChangeSub::Models(a) => models(&a),
            ChangeSub::Templates(a) => templates(&a),
        },
    )
}

/// Nothing is deleted without having to be confirmed, and nothing else has to be:
/// whatever the command, a request that deletes carries its deed, and only such a
/// request does.
pub proof fn every_deletion_has_to_be_confirmed(sub: ChangeSub)
    ensures
        sketch(sub) matches Ok(s) ==> (s.method == Method::Delete <==> s.deed is Some),
{
}

/// A change request is named by its sys_id behind the path of its type, whatever is
/// done to it; lists and creations have no sys_id.
pub proof fn a_change_is_named_by_its_path(sub: ChangeSub)
    ensures
        sub matches ChangeSub::List(a) ==> (sketch(sub) matches Ok(s) && s.method == Method::Get
            && s.path == base(a.change_type)),
        sub matches ChangeSub::Get(a) ==> (sketch(sub) matches Ok(s) && s.method == Method::Get
            && s.path == base(a.change_type) + "/"@ + a.sys_id@),
        sub matches ChangeSub::Update(a) ==> (sketch(sub) matches Ok(s) && s.method == Method::Patch
            && s.path == base(a.change_type) + "/"@ + a.sys_id@ && s.body == DraftBody::Flags(
            a.body,
            EmptyBody::Reject,
        )),
        sub matches ChangeSub::Delete(a) ==> (sketch(sub) matches Ok(s) && s.method
            == Method::Delete && s.path == base(a.change_type) + "/"@ + a.sys_id@ && (
        s.deed matches Some(d) && d.yes == a.yes)),
        sub matches ChangeSub::Nextstates(a) ==> (sketch(sub) matches Ok(s) && s.method
            == Method::Get && s.path == base(None) + "/"@ + a.sys_id@ + "/nextstates"@),
        sub matches ChangeSub::Schedule(a) ==> (sketch(sub) matches Ok(s) && s.method == Method::Get
            && s.path == base(None) + "/"@ + a.sys_id@ + "/schedule"@),
        sub matches ChangeSub::Approvals(a) ==> (sketch(sub) matches Ok(s) && s.method
            == Method::Patch && s.path == base(None) + "/"@ + a.sys_id@ + "/approvals"@ && s.body
            == DraftBody::Flags(a.body, EmptyBody::Reject)),
        sub matches ChangeSub::Risk(a) ==> (sketch(sub) matches Ok(s) && s.method == Method::Patch
            && s.path == base(None) + "/"@ + a.sys_id@ + "/risk"@ && s.body == DraftBody::Flags(
            a.body,
            EmptyBody::Reject,
        )),
        base(None) == "/api/sn_chg_rest/change"@,
        base(Some(ChangeType::Normal)) == base(None) + "/normal"@,
        base(Some(ChangeType::Emergency)) == base(None) + "/emergency"@,
        base(Some(ChangeType::Standard)) == base(None) + "/standard"@,
{
    reveal_strlit("/api/sn_chg_rest/change");
    reveal_strlit("/api/sn_chg_rest/change/");
    reveal_strlit("/");
    reveal_strlit("/api/sn_chg_rest/change/normal");
    reveal_strlit("/api/sn_chg_rest/change/emergency");
    reveal_strlit("/api/sn_chg_rest/change/standard");
    reveal_strlit("/normal");
    reveal_strlit("/emergency");
    reveal_strlit("/standard");
    let b = base(None);
    assert(base(Some(ChangeType::Normal)) =~= b + "/normal"@);
    assert(base(Some(ChangeType::Emergency)) =~= b + "/emergency"@);
    assert(base(Some(ChangeType::Standard)) =~= b + "/standard"@);
    assert("/api/sn_chg_rest/change/"@ =~= b + "/"@);
}

/// A new change request is posted to the path of its type; a standard one is made from
/// its template, and cannot be made without one.
pub proof fn a_change_is_made_by_its_type(args: ChangeCreateArgs)
    ensures
        create_sketch(args) is Err <==> args.change_type == ChangeType::Standard && args.template
            is None,
        create_sketch(args) matches Ok(s) ==> {
            &&& s.method == Method::Post && s.body == DraftBody::Flags(args.body, EmptyBody::Object)
            &&& args.change_type != ChangeType::Standard ==> s.path == base(Some(args.change_type))
            &&& args.change_type == ChangeType::Standard ==> (args.template matches Some(t)
                && s.path == base(Some(ChangeType::Standard)) + "/"@ + t@)
            &&& param_in(s.query, "sysparm_fields"@) == text_option(args.fields)
        },
{
    broadcast use {
        crate::request::lemma_param_with,
        crate::request::lemma_param_flag,
        crate::request::lemma_param_none,
        crate::request::lemma_param_push,
    };

    reveal_strlit("/api/sn_chg_rest/change/standard");
    reveal_strlit("/api/sn_chg_rest/change/standard/");
    reveal_strlit("/");
    reveal_strlit("sysparm_fields");
    reveal_strlit("sysparm_display_value");
    assert("sysparm_fields"@.len() == 14 && "sysparm_display_value"@.len() == 21);
    assert("/api/sn_chg_rest/change/standard/"@ =~= "/api/sn_chg_rest/change/standard"@ + "/"@);
}

/// The tasks of a change request stand below it; one is named by its own sys_id behind
/// that of the change.
pub proof fn a_task_stands_below_its_change(sub: ChangeTaskSub)
    ensures
        ({
            let s = task_sketch(sub);
            &&& sub matches ChangeTaskSub::List(a) ==> s.method == Method::Get && s.path == base(
                None,
            ) + "/"@ + a.change_sys_id@ + "/task"@ && param_in(s.query, "sysparm_limit"@) == Some(
                digits(a.limit.setlimit as nat),
            )
            &&& sub matches ChangeTaskSub::Create(a) ==> s.method == Method::Post && s.path == base(
                None,
            ) + "/"@ + a.change_sys_id@ + "/task"@ && s.body == DraftBody::Flags(
                a.body,
                EmptyBody::Object,
            )
            &&& sub matches ChangeTaskSub::Get(a) ==> s.method == Method::Get && s.path == base(
                None,
            ) + "/"@ + a.change_sys_id@ + "/task"@ + "/"@ + a.task_sys_id@
            &&& sub matches ChangeTaskSub::Update(a) ==> s.method == Method::Patch && s.path
                == base(None) + "/"@ + a.change_sys_id@ + "/task"@ + "/"@ + a.task_sys_id@ && s.body
                == DraftBody::Flags(a.body, EmptyBody::Reject)
            &&& sub matches ChangeTaskSub::Delete(a) ==> s.method == Method::Delete && s.path
                == base(None) + "/"@ + a.change_sys_id@ + "/task"@ + "/"@ + a.task_sys_id@ && (
            s.deed matches Some(d) && d.yes == a.yes)
        }),
{
    broadcast use {
        crate::request::lemma_param_with,
        crate::request::lemma_param_flag,
        crate::request::lemma_param_none,
        crate::request::lemma_param_push,
    };

    reveal_strlit("/api/sn_chg_rest/change");
    reveal_strlit("/api/sn_chg_rest/change/");
    reveal_strlit("/");
    reveal_strlit("/task/");
    reveal_strlit("/task");
    assert("/api/sn_chg_rest/change/"@ =~= base(None) + "/"@);
    assert("/task/"@ =~= "/task"@ + "/"@);
    match sub {
        ChangeTaskSub::Get(a) => {
            assert(task_path(a.change_sys_id@, a.task_sys_id@) =~= base(None) + "/"@
                + a.change_sys_id@ + "/task"@ + "/"@ + a.task_sys_id@);
        },
        ChangeTaskSub::Update(a) => {
            assert(task_path(a.change_sys_id@, a.task_sys_id@) =~= base(None) + "/"@
                + a.change_sys_id@ + "/task"@ + "/"@ + a.task_sys_id@);
        },
        ChangeTaskSub::Delete(a) => {
            assert(task_path(a.change_sys_id@, a.task_sys_id@) =~= base(None) + "/"@
                + a.change_sys_id@ + "/task"@ + "/"@ + a.task_sys_id@);
        },
        _ => {},
    }
}

/// The configuration items and the conflicts of a change request stand below it; to
/// remove conflicts has to be confirmed.
pub proof fn items_and_conflicts_stand_below_their_change(
    ci: ChangeCiSub,
    conflict: ChangeConflictSub,
)
    ensures
        ci matches ChangeCiSub::List(a) ==> ci_sketch(ci).method == Method::Get && ci_sketch(
            ci,
        ).path == base(None) + "/"@ + a.sys_id@ + "/ci"@,
        ci matches ChangeCiSub::Add(a) ==> ci_sketch(ci).method == Method::Post && ci_sketch(
            ci,
        ).path == base(None) + "/"@ + a.change_sys_id@ + "/ci"@ && ci_sketch(ci).body
            == DraftBody::Flags(a.body, EmptyBody::Reject),
        conflict matches ChangeConflictSub::Get(a) ==> conflict_sketch(conflict).method
            == Method::Get && conflict_sketch(conflict).path == base(None) + "/"@ + a.sys_id@
            + "/conflict"@,
        conflict matches ChangeConflictSub::Add(a) ==> conflict_sketch(conflict).method
            == Method::Post && conflict_sketch(conflict).path == base(None) + "/"@ + a.sys_id@
            + "/conflict"@ && conflict_sketch(conflict).body == DraftBody::Flags(
            a.body,
            EmptyBody::Reject,
        ),
        conflict matches ChangeConflictSub::Remove(a) ==> conflict_sketch(conflict).method
            == Method::Delete && conflict_sketch(conflict).path == base(None) + "/"@ + a.sys_id@
            + "/conflict"@ && (conflict_sketch(conflict).deed matches Some(d) && d.yes == a.yes),
{
    reveal_strlit("/api/sn_chg_rest/change");
    reveal_strlit("/api/sn_chg_rest/change/");
    reveal_strlit("/");
    assert("/api/sn_chg_rest/change/"@ =~= base(None) + "/"@);
}

/// The flags of a list of changes go into the parameters that are named after them.
pub proof fn a_list_of_changes_carries_its_flags(a: ChangeListArgs, g: ChangeGetArgs)
    ensures
        param_in(a.params(), "sysparm_query"@) == text_option(a.query),
        param_in(a.params(), "sysparm_fields"@) == text_option(a.fields),
        param_in(a.params(), "sysparm_limit"@) == Some(digits(a.paging.limit.setlimit as nat)),
        param_in(a.params(), "sysparm_offset"@) == number_option(a.paging.offset),
        param_in(a.params(), "sysparm_display_value"@) == display_option(
            a.display_value.display_value,
        ),
        param_in(a.params(), "sysparm_view"@) == text_option(a.view),
        param_in(a.params(), "sysparm_exclude_reference_link"@) is Some
            <==> a.exclude_reference_link,
        param_in(g.params(), "sysparm_fields"@) == text_option(g.fields),
        param_in(g.params(), "sysparm_display_value"@) == display_option(
            g.display_value.display_value,
        ),
        param_in(g.params(), "sysparm_view"@) == text_option(g.view),
        param_in(g.params(), "sysparm_exclude_reference_link"@) is Some
            <==> g.exclude_reference_link,
{
    broadcast use {
        crate::request::lemma_param_with,
        crate::request::lemma_param_flag,
        crate::request::lemma_param_none,
        crate::request::lemma_param_push,
    };

    reveal_strlit("sysparm_query");
    reveal_strlit("sysparm_fields");
    reveal_strlit("sysparm_limit");
    reveal_strlit("sysparm_offset");
    reveal_strlit("sysparm_display_value");
    reveal_strlit("sysparm_exclude_reference_link");
    reveal_strlit("sysparm_view");
    assert("sysparm_query"@.len() == 13 && "sysparm_fields"@.len() == 14 && "sysparm_limit"@.len() == 13 && "sysparm_offset"@.len() == 14 && "sysparm_display_value"@.len() == 21 && "sysparm_exclude_reference_link"@.len() == 30 && "sysparm_view"@.len() == 12);
    assert("sysparm_query"@[8] != "sysparm_limit"@[8]);
    assert("sysparm_fields"@[8] != "sysparm_offset"@[8]);
}

/// One of a kind is named behind the path of all of them.
pub proof fn one_stands_behind_all(sub: ChangeSub)
    ensures
        sub matches ChangeSub::Models(a) ==> (sketch(sub) matches Ok(s) && s.method == Method::Get
            && s.path == (match text_option(a.sys_id) {
            Some(id) => "/api/sn_chg_rest/change/model"@ + "/"@ + id,
            None => "/api/sn_chg_rest/change/model"@,
        })),
        sub matches ChangeSub::Templates(a) ==> (sketch(sub) matches Ok(s) && s.method
            == Method::Get && s.path == (match text_option(a.sys_id) {
            Some(id) => "/api/sn_chg_rest/change/standard/template"@ + "/"@ + id,
            None => "/api/sn_chg_rest/change/standard/template"@,
        })),
{
}

} // verus!

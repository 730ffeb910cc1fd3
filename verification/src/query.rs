//! The query parameters of the Table API.

use vstd::prelude::*;

use crate::error::text_option;
use crate::flags::{display_option, DisplayValueArg};
use crate::request::{
    no_query, number_option, pairs, param, param_in, param_number_option, param_option, push_flag,
    with_flag, with_param,
};

verus! {

/// Adds the choice of values where one was made.
pub fn param_display(q: &mut Vec<(String, String)>, name: &str, value: Option<DisplayValueArg>)
    ensures
        pairs(final(q)@) == with_param(pairs(old(q)@), name@, display_option(value)),
{
    if let Some(v) = value {
        param(q, name, v.as_str());
    }
}

/// The parameters of a list.
#[derive(Debug)]
pub struct ListQuery {
    pub query: Option<String>,
    pub fields: Option<String>,
    pub page_size: Option<u32>,
    pub offset: Option<u32>,
    pub display_value: Option<DisplayValueArg>,
    pub exclude_reference_link: bool,
    pub suppress_pagination_header: bool,
    pub view: Option<String>,
    pub query_category: Option<String>,
    pub query_no_domain: bool,
    pub no_count: bool,
}

/// The parameters of a read.
#[derive(Debug)]
pub struct GetQuery {
    pub fields: Option<String>,
    pub display_value: Option<DisplayValueArg>,
    pub exclude_reference_link: bool,
    pub view: Option<String>,
    pub query_no_domain: bool,
}

/// The parameters of a write.
#[derive(Debug)]
pub struct WriteQuery {
    pub fields: Option<String>,
    pub display_value: Option<DisplayValueArg>,
    pub exclude_reference_link: bool,
    pub input_display_value: bool,
    pub suppress_auto_sys_field: bool,
    pub view: Option<String>,
    pub query_no_domain: bool,
}

/// The parameters of a deletion.
#[derive(Debug)]
pub struct DeleteQuery {
    pub query_no_domain: bool,
}

/// The parameters that begin every read and write: the fields, the choice of
/// values, and the links.
pub open spec fn shape(
    q: Seq<(Seq<char>, Seq<char>)>,
    fields: Option<String>,
    display_value: Option<DisplayValueArg>,
    exclude_reference_link: bool,
) -> Seq<(Seq<char>, Seq<char>)> {
    with_flag(
        with_param(
            with_param(q, "sysparm_fields"@, text_option(fields)),
            "sysparm_display_value"@,
            display_option(display_value),
        ),
        "sysparm_exclude_reference_link"@,
        exclude_reference_link,
    )
}

/// Adds the parameters that begin every read and write.
fn push_shape(
    q: &mut Vec<(String, String)>,
    fields: &Option<String>,
    display_value: Option<DisplayValueArg>,
    exclude_reference_link: bool,
)
    ensures
        pairs(final(q)@) == shape(
            pairs(old(q)@),
            *fields,
            display_value,
            exclude_reference_link,
        ),
{
    param_option(q, "sysparm_fields", fields);
    param_display(q, "sysparm_display_value", display_value);
    push_flag(q, "sysparm_exclude_reference_link", exclude_reference_link);
}

impl GetQuery {
    /// The parameters: one for each flag that was given.
    pub open spec fn params(self) -> Seq<(Seq<char>, Seq<char>)> {
        let q = shape(
            Seq::empty(),
            self.fields,
            self.display_value,
            self.exclude_reference_link,
        );
        let q = with_param(q, "sysparm_view"@, text_option(self.view));
        with_flag(q, "sysparm_query_no_domain"@, self.query_no_domain)
    }

    /// The parameters.
    pub fn to_pairs(&self) -> (r: Vec<(String, String)>)
        ensures
            pairs(r@) == self.params(),
    {
        let mut q = no_query();
        push_shape(&mut q, &self.fields, self.display_value, self.exclude_reference_link);
        param_option(&mut q, "sysparm_view", &self.view);
        push_flag(&mut q, "sysparm_query_no_domain", self.query_no_domain);
        q
    }
}

impl WriteQuery {
    /// The parameters: one for each flag that was given.
    pub open spec fn params(self) -> Seq<(Seq<char>, Seq<char>)> {
        let q = shape(
            Seq::empty(),
            self.fields,
            self.display_value,
            self.exclude_reference_link,
        );
        let q = with_flag(q, "sysparm_input_display_value"@, self.input_display_value);
        let q = with_flag(q, "sysparm_suppress_auto_sys_field"@, self.suppress_auto_sys_field);
        let q = with_param(q, "sysparm_view"@, text_option(self.view));
        with_flag(q, "sysparm_query_no_domain"@, self.query_no_domain)
    }

    /// The parameters.
    pub fn to_pairs(&self) -> (r: Vec<(String, String)>)
        ensures
            pairs(r@) == self.params(),
    {
        let mut q = no_query();
        push_shape(&mut q, &self.fields, self.display_value, self.exclude_reference_link);
        push_flag(&mut q, "sysparm_input_display_value", self.input_display_value);
        push_flag(&mut q, "sysparm_suppress_auto_sys_field", self.suppress_auto_sys_field);
        param_option(&mut q, "sysparm_view", &self.view);
        push_flag(&mut q, "sysparm_query_no_domain", self.query_no_domain);
        q
    }
}

impl DeleteQuery {
    /// The parameters: one for each flag that was given.
    pub open spec fn params(self) -> Seq<(Seq<char>, Seq<char>)> {
        with_flag(Seq::empty(), "sysparm_query_no_domain"@, self.query_no_domain)
    }

    /// The parameters.
    pub fn to_pairs(&self) -> (r: Vec<(String, String)>)
        ensures
            pairs(r@) == self.params(),
    {
        let mut q = no_query();
        push_flag(&mut q, "sysparm_query_no_domain", self.query_no_domain);
        q
    }
}

impl ListQuery {
    /// The parameters: one for each flag that was given.
    pub open spec fn params(self) -> Seq<(Seq<char>, Seq<char>)> {
        let q = with_param(Seq::empty(), "sysparm_query"@, text_option(self.query));
        let q = with_param(q, "sysparm_limit"@, number_option(self.page_size));
        let q = with_param(q, "sysparm_offset"@, number_option(self.offset));
        let q = shape(q, self.fields, self.display_value, self.exclude_reference_link);
        let q = with_flag(
            q,
            "sysparm_suppress_pagination_header"@,
            self.suppress_pagination_header,
        );
        let q = with_param(q, "sysparm_view"@, text_option(self.view));
        let q = with_param(q, "sysparm_query_category"@, text_option(self.query_category));
        let q = with_flag(q, "sysparm_query_no_domain"@, self.query_no_domain);
        with_flag(q, "sysparm_no_count"@, self.no_count)
    }

    /// The parameters.
    pub fn to_pairs(&self) -> (r: Vec<(String, String)>)
        ensures
            pairs(r@) == self.params(),
    {
        let mut q = no_query();
        param_option(&mut q, "sysparm_query", &self.query);
        param_number_option(&mut q, "sysparm_limit", self.page_size);
        param_number_option(&mut q, "sysparm_offset", self.offset);
        push_shape(&mut q, &self.fields, self.display_value, self.exclude_reference_link);
        push_flag(&mut q, "sysparm_suppress_pagination_header", self.suppress_pagination_header);
        param_option(&mut q, "sysparm_view", &self.view);
        param_option(&mut q, "sysparm_query_category", &self.query_category);
        push_flag(&mut q, "sysparm_query_no_domain", self.query_no_domain);
        push_flag(&mut q, "sysparm_no_count", self.no_count);
        q
    }
}

/// Every flag of a list goes into the parameter that is named after it, and a flag
/// that is not given into none.
pub proof fn a_list_carries_its_flags(q: ListQuery)
    ensures
        param_in(q.params(), "sysparm_query"@) == text_option(q.query),
        param_in(q.params(), "sysparm_limit"@) == number_option(q.page_size),
        param_in(q.params(), "sysparm_offset"@) == number_option(q.offset),
        param_in(q.params(), "sysparm_fields"@) == text_option(q.fields),
        param_in(q.params(), "sysparm_display_value"@) == display_option(q.display_value),
        param_in(q.params(), "sysparm_view"@) == text_option(q.view),
        param_in(q.params(), "sysparm_query_category"@) == text_option(q.query_category),
        param_in(q.params(), "sysparm_exclude_reference_link"@) == (if q.exclude_reference_link {
            Some("true"@)
        } else {
            None
        }),
        param_in(q.params(), "sysparm_suppress_pagination_header"@) == (if q.suppress_pagination_header {
            Some("true"@)
        } else {
            None
        }),
        param_in(q.params(), "sysparm_query_no_domain"@) == (if q.query_no_domain {
            Some("true"@)
        } else {
            None
        }),
        param_in(q.params(), "sysparm_no_count"@) == (if q.no_count {
            Some("true"@)
        } else {
            None
        }),
{
    broadcast use {
        crate::request::lemma_param_with,
        crate::request::lemma_param_flag,
        crate::request::lemma_param_none,
    };

    reveal_strlit("sysparm_query");
    reveal_strlit("sysparm_limit");
    reveal_strlit("sysparm_offset");
    reveal_strlit("sysparm_fields");
    reveal_strlit("sysparm_display_value");
    reveal_strlit("sysparm_exclude_reference_link");
    reveal_strlit("sysparm_suppress_pagination_header");
    reveal_strlit("sysparm_view");
    reveal_strlit("sysparm_query_category");
    reveal_strlit("sysparm_query_no_domain");
    reveal_strlit("sysparm_no_count");
    assert("sysparm_query"@.len() == 13 && "sysparm_limit"@.len() == 13 && "sysparm_offset"@.len() == 14 && "sysparm_fields"@.len() == 14 && "sysparm_display_value"@.len() == 21 && "sysparm_exclude_reference_link"@.len() == 30 && "sysparm_suppress_pagination_header"@.len() == 34 && "sysparm_view"@.len() == 12 && "sysparm_query_category"@.len() == 22 && "sysparm_query_no_domain"@.len() == 23 && "sysparm_no_count"@.len() == 16);
    assert("sysparm_query"@[8] != "sysparm_limit"@[8]);
    assert("sysparm_offset"@[8] != "sysparm_fields"@[8]);
}

/// Every flag of a read goes into the parameter that is named after it.
pub proof fn a_read_carries_its_flags(q: GetQuery)
    ensures
        param_in(q.params(), "sysparm_fields"@) == text_option(q.fields),
        param_in(q.params(), "sysparm_display_value"@) == display_option(q.display_value),
        param_in(q.params(), "sysparm_view"@) == text_option(q.view),
        param_in(q.params(), "sysparm_exclude_reference_link"@) == (if q.exclude_reference_link {
            Some("true"@)
        } else {
            None
        }),
        param_in(q.params(), "sysparm_query_no_domain"@) == (if q.query_no_domain {
            Some("true"@)
        } else {
            None
        }),
{
    broadcast use {
        crate::request::lemma_param_with,
        crate::request::lemma_param_flag,
        crate::request::lemma_param_none,
    };

    reveal_strlit("sysparm_fields");
    reveal_strlit("sysparm_display_value");
    reveal_strlit("sysparm_view");
    reveal_strlit("sysparm_exclude_reference_link");
    reveal_strlit("sysparm_query_no_domain");
    assert("sysparm_fields"@.len() == 14 && "sysparm_display_value"@.len() == 21 && "sysparm_view"@.len() == 12 && "sysparm_exclude_reference_link"@.len() == 30 && "sysparm_query_no_domain"@.len() == 23);
}

/// Every flag of a write goes into the parameter that is named after it.
pub proof fn a_write_carries_its_flags(q: WriteQuery)
    ensures
        param_in(q.params(), "sysparm_fields"@) == text_option(q.fields),
        param_in(q.params(), "sysparm_display_value"@) == display_option(q.display_value),
        param_in(q.params(), "sysparm_view"@) == text_option(q.view),
        param_in(q.params(), "sysparm_exclude_reference_link"@) == (if q.exclude_reference_link {
            Some("true"@)
        } else {
            None
        }),
        param_in(q.params(), "sysparm_input_display_value"@) == (if q.input_display_value {
            Some("true"@)
        } else {
            None
        }),
        param_in(q.params(), "sysparm_suppress_auto_sys_field"@) == (if q.suppress_auto_sys_field {
            Some("true"@)
        } else {
            None
        }),
        param_in(q.params(), "sysparm_query_no_domain"@) == (if q.query_no_domain {
            Some("true"@)
        } else {
            None
        }),
{
    broadcast use {
        crate::request::lemma_param_with,
        crate::request::lemma_param_flag,
        crate::request::lemma_param_none,
    };

    reveal_strlit("sysparm_fields");
    reveal_strlit("sysparm_display_value");
    reveal_strlit("sysparm_view");
    reveal_strlit("sysparm_exclude_reference_link");
    reveal_strlit("sysparm_input_display_value");
    reveal_strlit("sysparm_suppress_auto_sys_field");
    reveal_strlit("sysparm_query_no_domain");
    assert("sysparm_fields"@.len() == 14 && "sysparm_display_value"@.len() == 21 && "sysparm_view"@.len() == 12 && "sysparm_exclude_reference_link"@.len() == 30 && "sysparm_input_display_value"@.len() == 27 && "sysparm_suppress_auto_sys_field"@.len() == 31 && "sysparm_query_no_domain"@.len() == 23);
}

/// The flag of a removal goes into the parameter that is named after it.
pub proof fn a_removal_carries_its_flag(q: DeleteQuery)
    ensures
        param_in(q.params(), "sysparm_query_no_domain"@) == (if q.query_no_domain {
            Some("true"@)
        } else {
            None
        }),
        !q.query_no_domain ==> q.params().len() == 0,
{
    broadcast use {
        crate::request::lemma_param_with,
        crate::request::lemma_param_flag,
        crate::request::lemma_param_none,
    };

}

} // verus!

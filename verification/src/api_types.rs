//! Typed shapes of the remote API's responses, and their conversions to
//! domain types.
//!
//! The wire format is JSON; the application deserializes it and hands these
//! types over with plain fields. Rich-text descriptions arrive either as
//! plain text or as a document tree ([`AdfNode`]); custom fields (such as
//! the epic link) as a string, an object or something else
//! ([`ApiFieldValue`]).

use vstd::prelude::*;
use crate::cache::opt_view;
use crate::jira_types::{BoardColumn, BoardConfiguration, Issue, IssueSummary, StatusInfo};
use crate::strutil::{chars_string, str_eq, string_chars};

verus! {

#[derive(Debug, Clone)]
pub struct ApiStatus {
    pub id: String,
    pub name: String,
}

#[derive(Debug, Clone)]
pub struct ApiIssueType {
    pub name: String,
}

#[derive(Debug, Clone)]
pub struct ApiUser {
    pub display_name: String,
}

#[derive(Debug, Clone)]
pub struct ApiPriority {
    pub name: String,
}

/// One node of a rich-text document tree: its type, its text when it is a
/// text node, and its children.
#[derive(Debug)]
pub struct AdfNode {
    pub node_type: String,
    pub text: Option<String>,
    pub content: Vec<AdfNode>,
}

/// A description field: plain text, or a rich-text document.
#[derive(Debug)]
pub enum ApiDescription {
    Text(String),
    Doc(Vec<AdfNode>),
}

/// A custom field's value, as far as the logic reads it: a string, an
/// object with optional `key` and `name`, or something else.
#[derive(Debug, Clone)]
pub enum ApiFieldValue {
    Text(String),
    Object { key: Option<String>, name: Option<String> },
    Other,
}

/// Issue fields, as used by both the search and the board issues endpoints.
#[derive(Debug)]
pub struct ApiIssueFields {
    pub summary: String,
    pub status: Option<ApiStatus>,
    pub issue_type: Option<ApiIssueType>,
    pub assignee: Option<ApiUser>,
    pub reporter: Option<ApiUser>,
    pub priority: Option<ApiPriority>,
    pub labels: Vec<String>,
    pub created: String,
    pub updated: String,
    pub description: Option<ApiDescription>,
    /// Custom fields by name (such as the epic link).
    pub extra: Vec<(String, ApiFieldValue)>,
}

#[derive(Debug)]
pub struct ApiIssue {
    pub key: String,
    pub fields: ApiIssueFields,
}

#[derive(Debug)]
pub struct ApiBoardIssuesResponse {
    pub issues: Vec<ApiIssue>,
    pub start_at: u64,
    pub max_results: u64,
    pub total: u64,
}

#[derive(Debug, Clone)]
pub struct ApiStatusRef {
    pub id: String,
    pub name: String,
}

#[derive(Debug, Clone)]
pub struct ApiColumn {
    pub name: String,
    pub statuses: Vec<ApiStatusRef>,
}

#[derive(Debug, Clone)]
pub struct ApiColumnConfig {
    pub columns: Vec<ApiColumn>,
}

#[derive(Debug, Clone)]
pub struct ApiBoardConfigResponse {
    pub column_config: Option<ApiColumnConfig>,
}

#[derive(Debug, Clone)]
pub struct ApiTransitionTo {
    pub id: String,
}

#[derive(Debug, Clone)]
pub struct ApiTransition {
    pub id: String,
    pub to: ApiTransitionTo,
}

#[derive(Debug, Clone)]
pub struct ApiTransitionsResponse {
    pub transitions: Vec<ApiTransition>,
}

// ---------------------------------------------------------------------------
// Rich-text extraction
// ---------------------------------------------------------------------------

/// The plain text of one document node: text nodes contribute their text,
/// hard breaks a newline, paragraphs and headings their children's text
/// followed by a newline, and every other node its children's text.
pub open spec fn spec_node_text(n: AdfNode) -> Seq<char>
    decreases n,
{
    if n.node_type@ == "text"@ {
        match n.text {
            Some(t) => t@,
            None => Seq::empty(),
        }
    } else if n.node_type@ == "hardBreak"@ {
        seq!['\n']
    } else if n.node_type@ == "paragraph"@ || n.node_type@ == "heading"@ {
        spec_nodes_text(n.content@) + seq!['\n']
    } else {
        spec_nodes_text(n.content@)
    }
}

/// The plain text of a list of document nodes, in order.
pub open spec fn spec_nodes_text(nodes: Seq<AdfNode>) -> Seq<char>
    decreases nodes,
{
    if nodes.len() == 0 {
        Seq::empty()
    } else {
        spec_node_text(nodes[0]) + spec_nodes_text(nodes.drop_first())
    }
}

proof fn lemma_nodes_text_push(nodes: Seq<AdfNode>, n: AdfNode)
    ensures
        spec_nodes_text(nodes.push(n)) == spec_nodes_text(nodes) + spec_node_text(n),
    decreases nodes,
{
    if nodes.len() == 0 {
        assert(nodes.push(n)[0] == n);
        assert(nodes.push(n).drop_first() =~= Seq::<AdfNode>::empty());
        assert(spec_nodes_text(Seq::<AdfNode>::empty()) == Seq::<char>::empty());
        assert(spec_node_text(n) + Seq::<char>::empty() =~= Seq::<char>::empty()
            + spec_node_text(n));
    } else {
        assert(nodes.push(n)[0] == nodes[0]);
        assert(nodes.push(n).drop_first() =~= nodes.drop_first().push(n));
        lemma_nodes_text_push(nodes.drop_first(), n);
        assert(spec_node_text(nodes[0]) + (spec_nodes_text(nodes.drop_first())
            + spec_node_text(n)) =~= (spec_node_text(nodes[0]) + spec_nodes_text(
            nodes.drop_first(),
        )) + spec_node_text(n));
    }
}

/// Append one node's plain text to `out`.
fn push_node_text(n: &AdfNode, out: &mut Vec<char>)
    ensures
        final(out)@ == old(out)@ + spec_node_text(*n),
    decreases *n,
{
    if str_eq(n.node_type.as_str(), "text") {
        match &n.text {
            Some(t) => {
                let mut cs = string_chars(t.as_str());
                out.append(&mut cs);
            }
            None => {
                proof {
                    assert(out@ =~= old(out)@ + Seq::<char>::empty());
                }
            }
        }
    } else if str_eq(n.node_type.as_str(), "hardBreak") {
        out.push('\n');
        proof {
            assert(out@ =~= old(out)@ + seq!['\n']);
        }
    } else {
        push_nodes_text(&n.content, out);
        if str_eq(n.node_type.as_str(), "paragraph") || str_eq(n.node_type.as_str(), "heading") {
            out.push('\n');
            proof {
                assert(out@ =~= (old(out)@ + spec_nodes_text(n.content@)) + seq!['\n']);
                assert((old(out)@ + spec_nodes_text(n.content@)) + seq!['\n'] =~= old(out)@ + (
                spec_nodes_text(n.content@) + seq!['\n']));
            }
        }
    }
}

/// Append the plain text of a list of nodes to `out`.
fn push_nodes_text(nodes: &Vec<AdfNode>, out: &mut Vec<char>)
    ensures
        final(out)@ == old(out)@ + spec_nodes_text(nodes@),
    decreases nodes,
{
    let m = nodes.len();
    let mut i: usize = 0;
    while i < m
        invariant
            0 <= i <= m,
            m == nodes@.len(),
            out@ == old(out)@ + spec_nodes_text(nodes@.take(i as int)),
        decreases m - i,
    {
        proof {
            lemma_nodes_text_push(nodes@.take(i as int), nodes@[i as int]);
            assert(nodes@.take(i as int).push(nodes@[i as int]) =~= nodes@.take(i as int + 1));
        }
        let ghost prev = out@;
        push_node_text(&nodes[i], out);
        proof {
            assert(out@ =~= old(out)@ + spec_nodes_text(nodes@.take(i as int + 1)));
        }
        i += 1;
    }
    proof {
        assert(nodes@.take(m as int) =~= nodes@);
        assert(spec_nodes_text(Seq::<AdfNode>::empty()) == Seq::<char>::empty());
        assert(out@ =~= old(out)@ + spec_nodes_text(nodes@));
    }
}

/// The plain-text description a description field yields: plain text as it
/// is; a document's extracted text, unless it is empty.
pub open spec fn spec_description_text(d: ApiDescription) -> Option<Seq<char>> {
    match d {
        ApiDescription::Text(s) => Some(s@),
        ApiDescription::Doc(content) => if spec_nodes_text(content@).len() > 0 {
            Some(spec_nodes_text(content@))
        } else {
            None
        },
    }
}

/// Extract a plain-text description from plain text or a rich-text
/// document; an empty document yields nothing.
pub fn extract_description(value: &ApiDescription) -> (r: Option<String>)
    ensures
        opt_view(r) == spec_description_text(*value),
{
    match value {
        ApiDescription::Text(s) => Some(s.clone()),
        ApiDescription::Doc(content) => {
            let mut out: Vec<char> = Vec::new();
            push_nodes_text(content, &mut out);
            proof {
                assert(Seq::<char>::empty() + spec_nodes_text(content@) =~= spec_nodes_text(
                    content@,
                ));
            }
            if out.len() > 0 {
                Some(chars_string(&out))
            } else {
                None
            }
        }
    }
}

// ---------------------------------------------------------------------------
// Epic custom field
// ---------------------------------------------------------------------------

/// The epic value a custom field yields: a string as it is; an object's
/// `key`, or its `name` as a fallback.
pub open spec fn spec_epic_value(value: Option<ApiFieldValue>) -> Option<Seq<char>> {
    match value {
        None => None,
        Some(ApiFieldValue::Text(s)) => Some(s@),
        Some(ApiFieldValue::Object { key: Some(k), name: _ }) => Some(k@),
        Some(ApiFieldValue::Object { key: None, name: Some(n) }) => Some(n@),
        _ => None,
    }
}

/// Extract an epic value from a custom field.
pub fn extract_epic_value(value: Option<&ApiFieldValue>) -> (r: Option<String>)
    ensures
        opt_view(r) == spec_epic_value(match value {
            Some(v) => Some(*v),
            None => None,
        }),
{
    match value {
        None => None,
        Some(ApiFieldValue::Text(s)) => Some(s.clone()),
        Some(ApiFieldValue::Object { key: Some(k), name: _ }) => Some(k.clone()),
        Some(ApiFieldValue::Object { key: None, name: Some(n) }) => Some(n.clone()),
        _ => None,
    }
}

/// First custom field with the given name.
pub open spec fn spec_field_lookup(
    extra: Seq<(String, ApiFieldValue)>,
    name: Seq<char>,
) -> Option<ApiFieldValue>
    decreases extra.len(),
{
    if extra.len() == 0 {
        None
    } else if extra[0].0@ == name {
        Some(extra[0].1)
    } else {
        spec_field_lookup(extra.drop_first(), name)
    }
}

/// Look a custom field up by name.
fn field_lookup<'a>(extra: &'a Vec<(String, ApiFieldValue)>, name: &str) -> (r: Option<
    &'a ApiFieldValue,
>)
    ensures
        match r {
            Some(v) => spec_field_lookup(extra@, name@) == Some(*v),
            None => spec_field_lookup(extra@, name@) is None,
        },
{
    let m = extra.len();
    proof {
        assert(extra@.skip(0) =~= extra@);
    }
    let mut i: usize = 0;
    while i < m
        invariant
            0 <= i <= m,
            m == extra@.len(),
            spec_field_lookup(extra@, name@) == spec_field_lookup(extra@.skip(i as int), name@),
        decreases m - i,
    {
        proof {
            assert(extra@.skip(i as int)[0] == extra@[i as int]);
            assert(extra@.skip(i as int).drop_first() =~= extra@.skip(i as int + 1));
        }
        if str_eq(extra[i].0.as_str(), name) {
            return Some(&extra[i].1);
        }
        i += 1;
    }
    proof {
        assert(extra@.skip(m as int) =~= Seq::<(String, ApiFieldValue)>::empty());
    }
    None
}

// ---------------------------------------------------------------------------
// Conversions to domain types
// ---------------------------------------------------------------------------

/// The column views of a list of columns, in order.
pub open spec fn spec_columns_of(cols: Seq<ApiColumn>) -> Seq<crate::jira_types::BoardColumnView> {
    Seq::new(cols.len(), |i: int| cols[i].spec_column())
}

/// The name of an optional named field, or empty.
pub open spec fn spec_name_or_empty(name: Option<Seq<char>>) -> Seq<char> {
    match name {
        Some(n) => n,
        None => Seq::empty(),
    }
}

impl ApiIssue {
    /// Convert to an issue summary, without epic resolution.
    pub fn into_summary(self) -> (r: IssueSummary)
        ensures
            r@ == self.spec_summary_with_epic(None),
    {
        self.into_summary_with_epic(None)
    }

    /// The summary view an issue converts to, given the epic field name.
    pub open spec fn spec_summary_with_epic(
        self,
        epic_field: Option<Seq<char>>,
    ) -> crate::jira_types::IssueSummaryView {
        let f = self.fields;
        crate::jira_types::IssueSummaryView {
            key: self.key@,
            summary: f.summary@,
            status: spec_name_or_empty(match f.status {
                Some(s) => Some(s.name@),
                None => None,
            }),
            status_id: spec_name_or_empty(match f.status {
                Some(s) => Some(s.id@),
                None => None,
            }),
            issue_type: spec_name_or_empty(match f.issue_type {
                Some(t) => Some(t.name@),
                None => None,
            }),
            assignee: match f.assignee {
                Some(u) => Some(u.display_name@),
                None => None,
            },
            priority: match f.priority {
                Some(p) => Some(p.name@),
                None => None,
            },
            epic: match epic_field {
                Some(name) => spec_epic_value(spec_field_lookup(f.extra@, name)),
                None => None,
            },
            updated: f.updated@,
        }
    }

    /// Convert to an issue summary, resolving the epic from the named
    /// custom field.
    pub fn into_summary_with_epic(self, epic_field: Option<&str>) -> (r: IssueSummary)
        ensures
            r@ == self.spec_summary_with_epic(match epic_field {
                Some(n) => Some(n@),
                None => None,
            }),
    {
        let f = self.fields;
        let epic = match epic_field {
            Some(field_name) => extract_epic_value(field_lookup(&f.extra, field_name)),
            None => None,
        };
        let r = IssueSummary {
            key: self.key,
            summary: f.summary,
            status: match &f.status {
                Some(s) => s.name.clone(),
                None => String::new(),
            },
            status_id: match f.status {
                Some(s) => s.id,
                None => String::new(),
            },
            issue_type: match f.issue_type {
                Some(t) => t.name,
                None => String::new(),
            },
            assignee: match f.assignee {
                Some(u) => Some(u.display_name),
                None => None,
            },
            priority: match f.priority {
                Some(p) => Some(p.name),
                None => None,
            },
            epic,
            updated: f.updated,
        };
        proof {
            assert(r@ =~= self.spec_summary_with_epic(match epic_field {
                Some(n) => Some(n@),
                None => None,
            }));
        }
        r
    }

    /// The full-issue view an issue converts to.
    pub open spec fn spec_full(self) -> crate::jira_types::IssueView {
        let f = self.fields;
        crate::jira_types::IssueView {
            key: self.key@,
            summary: f.summary@,
            description: match f.description {
                Some(d) => spec_description_text(d),
                None => None,
            },
            status: spec_name_or_empty(match f.status {
                Some(s) => Some(s.name@),
                None => None,
            }),
            status_id: spec_name_or_empty(match f.status {
                Some(s) => Some(s.id@),
                None => None,
            }),
            issue_type: spec_name_or_empty(match f.issue_type {
                Some(t) => Some(t.name@),
                None => None,
            }),
            assignee: match f.assignee {
                Some(u) => Some(u.display_name@),
                None => None,
            },
            reporter: match f.reporter {
                Some(u) => Some(u.display_name@),
                None => None,
            },
            priority: match f.priority {
                Some(p) => Some(p.name@),
                None => None,
            },
            labels: f.labels.deep_view(),
            created: f.created@,
            updated: f.updated@,
        }
    }

    /// Convert to full issue details.
    pub fn into_full(self) -> (r: Issue)
        ensures
            r@ == self.spec_full(),
    {
        let f = self.fields;
        let description = match &f.description {
            Some(d) => extract_description(d),
            None => None,
        };
        let r = Issue {
            key: self.key,
            summary: f.summary,
            description,
            status: match &f.status {
                Some(s) => s.name.clone(),
                None => String::new(),
            },
            status_id: match f.status {
                Some(s) => s.id,
                None => String::new(),
            },
            issue_type: match f.issue_type {
                Some(t) => t.name,
                None => String::new(),
            },
            assignee: match f.assignee {
                Some(u) => Some(u.display_name),
                None => None,
            },
            reporter: match f.reporter {
                Some(u) => Some(u.display_name),
                None => None,
            },
            priority: match f.priority {
                Some(p) => Some(p.name),
                None => None,
            },
            labels: f.labels,
            created: f.created,
            updated: f.updated,
        };
        proof {
            assert(r@ =~= self.spec_full());
        }
        r
    }
}

impl ApiColumn {
    /// The column view this converts to: each status keeps its id, and an
    /// empty status name falls back to the id.
    pub open spec fn spec_column(self) -> crate::jira_types::BoardColumnView {
        crate::jira_types::BoardColumnView {
            name: self.name@,
            statuses: Seq::new(
                self.statuses@.len(),
                |i: int|
                    crate::jira_types::StatusInfoView {
                        id: self.statuses@[i].id@,
                        name: if self.statuses@[i].name@.len() == 0 {
                            self.statuses@[i].id@
                        } else {
                            self.statuses@[i].name@
                        },
                    },
            ),
        }
    }

    /// Convert to a board column.
    pub fn into_column(self) -> (r: BoardColumn)
        ensures
            r.name@ == self.spec_column().name,
            r.statuses.deep_view() == self.spec_column().statuses,
    {
        let ghost me = self;
        let mut statuses: Vec<StatusInfo> = Vec::new();
        let n = self.statuses.len();
        let mut i: usize = 0;
        while i < n
            invariant
                0 <= i <= n,
                n == self.statuses@.len(),
                self == me,
                statuses.deep_view() == me.spec_column().statuses.take(i as int),
            decreases n - i,
        {
            let s = &self.statuses[i];
            let name = if s.name.as_str().is_empty() {
                s.id.clone()
            } else {
                s.name.clone()
            };
            let ghost prev = statuses.deep_view();
            let info = StatusInfo { id: s.id.clone(), name };
            proof {
                assert(info@ =~= me.spec_column().statuses[i as int]);
            }
            statuses.push(info);
            proof {
                assert(statuses.deep_view() =~= prev.push(info@));
                assert(statuses.deep_view() =~= me.spec_column().statuses.take(i as int + 1));
            }
            i += 1;
        }
        proof {
            assert(me.spec_column().statuses.take(n as int) =~= me.spec_column().statuses);
        }
        BoardColumn { name: self.name, statuses }
    }
}

impl ApiBoardConfigResponse {
    /// Convert to a board configuration: each column converted in order,
    /// or no columns at all.
    pub fn into_configuration(self) -> (r: BoardConfiguration)
        ensures
            match self.column_config {
                Some(cc) => r.columns.deep_view() == spec_columns_of(cc.columns@),
                None => r.columns@.len() == 0,
            },
    {
        match self.column_config {
            Some(cc) => {
                let mut columns: Vec<BoardColumn> = Vec::new();
                let n = cc.columns.len();
                let ghost cols = cc.columns@;
                let mut cc_columns = cc.columns;
                proof {
                    assert(cc_columns@ =~= cols.skip(0));
                    assert(columns.deep_view() =~= spec_columns_of(cols).take(0));
                }
                let mut i: usize = 0;
                while i < n
                    invariant
                        0 <= i <= n,
                        cols.len() == n,
                        cc_columns@ == cols.skip(i as int),
                        columns.deep_view() == spec_columns_of(cols).take(i as int),
                    decreases n - i,
                {
                    proof {
                        assert(cc_columns@[0] == cols[i as int]);
                    }
                    let ghost prev = columns.deep_view();
                    let col = cc_columns.remove(0);
                    let bc = col.into_column();
                    proof {
                        assert(bc@ =~= cols[i as int].spec_column());
                    }
                    columns.push(bc);
                    proof {
                        assert(cc_columns@ =~= cols.skip(i as int + 1));
                        assert(columns.deep_view() =~= prev.push(bc@));
                        assert(columns.deep_view() =~= spec_columns_of(cols).take(i as int + 1));
                    }
                    i += 1;
                }
                proof {
                    assert(spec_columns_of(cols).take(n as int) =~= spec_columns_of(cols));
                }
                BoardConfiguration { columns }
            }
            None => BoardConfiguration { columns: Vec::new() },
        }
    }
}

} // verus!

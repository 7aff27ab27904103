//! Domain types for the issue tracker, with their cache contracts.

use vstd::prelude::*;
use crate::cache::{Cacheable, opt_view};
use crate::codec::{FieldValue, FieldView};
use crate::strutil::{spec_decimal, u64_string};

verus! {

/// Summary of an issue, for list views.
#[derive(Debug, Clone)]
pub struct IssueSummary {
    pub key: String,
    pub summary: String,
    pub status: String,
    pub status_id: String,
    pub issue_type: String,
    pub assignee: Option<String>,
    pub priority: Option<String>,
    pub epic: Option<String>,
    pub updated: String,
}

/// Mathematical image of an [`IssueSummary`].
#[verifier::ext_equal]
pub struct IssueSummaryView {
    pub key: Seq<char>,
    pub summary: Seq<char>,
    pub status: Seq<char>,
    pub status_id: Seq<char>,
    pub issue_type: Seq<char>,
    pub assignee: Option<Seq<char>>,
    pub priority: Option<Seq<char>>,
    pub epic: Option<Seq<char>>,
    pub updated: Seq<char>,
}

impl View for IssueSummary {
    type V = IssueSummaryView;

    open spec fn view(&self) -> IssueSummaryView {
        IssueSummaryView {
            key: self.key@,
            summary: self.summary@,
            status: self.status@,
            status_id: self.status_id@,
            issue_type: self.issue_type@,
            assignee: opt_view(self.assignee),
            priority: opt_view(self.priority),
            epic: opt_view(self.epic),
            updated: self.updated@,
        }
    }
}

impl DeepView for IssueSummary {
    type V = IssueSummaryView;

    open spec fn deep_view(&self) -> IssueSummaryView {
        self.view()
    }
}

/// Full issue details.
#[derive(Debug, Clone)]
pub struct Issue {
    pub key: String,
    pub summary: String,
    pub description: Option<String>,
    pub status: String,
    pub status_id: String,
    pub issue_type: String,
    pub assignee: Option<String>,
    pub reporter: Option<String>,
    pub priority: Option<String>,
    pub labels: Vec<String>,
    pub created: String,
    pub updated: String,
}

/// Mathematical image of an [`Issue`].
#[verifier::ext_equal]
pub struct IssueView {
    pub key: Seq<char>,
    pub summary: Seq<char>,
    pub description: Option<Seq<char>>,
    pub status: Seq<char>,
    pub status_id: Seq<char>,
    pub issue_type: Seq<char>,
    pub assignee: Option<Seq<char>>,
    pub reporter: Option<Seq<char>>,
    pub priority: Option<Seq<char>>,
    pub labels: Seq<Seq<char>>,
    pub created: Seq<char>,
    pub updated: Seq<char>,
}

impl View for Issue {
    type V = IssueView;

    open spec fn view(&self) -> IssueView {
        IssueView {
            key: self.key@,
            summary: self.summary@,
            description: opt_view(self.description),
            status: self.status@,
            status_id: self.status_id@,
            issue_type: self.issue_type@,
            assignee: opt_view(self.assignee),
            reporter: opt_view(self.reporter),
            priority: opt_view(self.priority),
            labels: self.labels.deep_view(),
            created: self.created@,
            updated: self.updated@,
        }
    }
}

impl DeepView for Issue {
    type V = IssueView;

    open spec fn deep_view(&self) -> IssueView {
        self.view()
    }
}

/// Board summary; `board_type` is "scrum" or "kanban".
#[derive(Debug, Clone)]
pub struct Board {
    pub id: u64,
    pub name: String,
    pub board_type: String,
}

/// Mathematical image of a [`Board`].
#[verifier::ext_equal]
pub struct BoardView {
    pub id: u64,
    pub name: Seq<char>,
    pub board_type: Seq<char>,
}

impl View for Board {
    type V = BoardView;

    open spec fn view(&self) -> BoardView {
        BoardView { id: self.id, name: self.name@, board_type: self.board_type@ }
    }
}

impl DeepView for Board {
    type V = BoardView;

    open spec fn deep_view(&self) -> BoardView {
        self.view()
    }
}

/// Epic summary.
#[derive(Debug, Clone)]
pub struct Epic {
    pub key: String,
    pub name: String,
    pub summary: String,
    pub status: String,
}

/// Status with identifier and human-readable name.
#[derive(Debug, Clone)]
pub struct StatusInfo {
    pub id: String,
    pub name: String,
}

/// Mathematical image of a [`StatusInfo`].
#[verifier::ext_equal]
pub struct StatusInfoView {
    pub id: Seq<char>,
    pub name: Seq<char>,
}

impl View for StatusInfo {
    type V = StatusInfoView;

    open spec fn view(&self) -> StatusInfoView {
        StatusInfoView { id: self.id@, name: self.name@ }
    }
}

impl DeepView for StatusInfo {
    type V = StatusInfoView;

    open spec fn deep_view(&self) -> StatusInfoView {
        self.view()
    }
}

/// Board column: a name and the statuses it maps to.
#[derive(Debug, Clone)]
pub struct BoardColumn {
    pub name: String,
    pub statuses: Vec<StatusInfo>,
}

/// Mathematical image of a [`BoardColumn`].
#[verifier::ext_equal]
pub struct BoardColumnView {
    pub name: Seq<char>,
    pub statuses: Seq<StatusInfoView>,
}

impl View for BoardColumn {
    type V = BoardColumnView;

    open spec fn view(&self) -> BoardColumnView {
        BoardColumnView { name: self.name@, statuses: self.statuses.deep_view() }
    }
}

impl DeepView for BoardColumn {
    type V = BoardColumnView;

    open spec fn deep_view(&self) -> BoardColumnView {
        self.view()
    }
}

/// Board configuration: its columns.
#[derive(Debug, Clone)]
pub struct BoardConfiguration {
    pub columns: Vec<BoardColumn>,
}

/// A board quick filter.
#[derive(Debug, Clone)]
pub struct QuickFilter {
    pub id: u64,
    pub name: String,
    pub jql: String,
}

// ---------------------------------------------------------------------------
// Cache contracts
// ---------------------------------------------------------------------------

impl Cacheable for IssueSummary {
    open spec fn spec_key_of(v: IssueSummaryView) -> Seq<char> {
        v.key
    }

    open spec fn spec_updated_of(v: IssueSummaryView) -> Option<Seq<char>> {
        Some(v.updated)
    }

    open spec fn spec_entity_type() -> Seq<char> {
        "issue_summary"@
    }

    open spec fn spec_fields_of(v: IssueSummaryView) -> Seq<FieldView> {
        seq![
            FieldView::Text(v.key),
            FieldView::Text(v.summary),
            FieldView::Text(v.status),
            FieldView::Text(v.status_id),
            FieldView::Text(v.issue_type),
            FieldView::OptText(v.assignee),
            FieldView::OptText(v.priority),
            FieldView::OptText(v.epic),
            FieldView::Text(v.updated),
        ]
    }

    open spec fn spec_from_fields(fs: Seq<FieldView>) -> Option<IssueSummaryView> {
        if fs.len() == 9 && fs[0] is Text && fs[1] is Text && fs[2] is Text && fs[3] is Text
            && fs[4] is Text && fs[5] is OptText && fs[6] is OptText && fs[7] is OptText
            && fs[8] is Text {
            Some(
                IssueSummaryView {
                    key: fs[0]->Text_0,
                    summary: fs[1]->Text_0,
                    status: fs[2]->Text_0,
                    status_id: fs[3]->Text_0,
                    issue_type: fs[4]->Text_0,
                    assignee: fs[5]->OptText_0,
                    priority: fs[6]->OptText_0,
                    epic: fs[7]->OptText_0,
                    updated: fs[8]->Text_0,
                },
            )
        } else {
            None
        }
    }

    fn cache_key(&self) -> (r: String) {
        self.key.clone()
    }

    fn updated_at(&self) -> (r: Option<String>) {
        Some(self.updated.clone())
    }

    fn entity_type() -> (r: String) {
        "issue_summary".to_owned()
    }

    fn to_fields(&self) -> (r: Vec<FieldValue>) {
        let mut r: Vec<FieldValue> = Vec::new();
        r.push(FieldValue::Text(self.key.clone()));
        r.push(FieldValue::Text(self.summary.clone()));
        r.push(FieldValue::Text(self.status.clone()));
        r.push(FieldValue::Text(self.status_id.clone()));
        r.push(FieldValue::Text(self.issue_type.clone()));
        r.push(FieldValue::OptText(clone_opt(&self.assignee)));
        r.push(FieldValue::OptText(clone_opt(&self.priority)));
        r.push(FieldValue::OptText(clone_opt(&self.epic)));
        r.push(FieldValue::Text(self.updated.clone()));
        proof {
            assert(r.deep_view() =~= Self::spec_fields_of(self@));
        }
        r
    }

    fn from_fields(fs: &Vec<FieldValue>) -> (r: Option<Self>) {
        if fs.len() != 9 {
            return None;
        }
        let key = match &fs[0] { FieldValue::Text(s) => s.clone(), _ => { return None } };
        let summary = match &fs[1] { FieldValue::Text(s) => s.clone(), _ => { return None } };
        let status = match &fs[2] { FieldValue::Text(s) => s.clone(), _ => { return None } };
        let status_id = match &fs[3] { FieldValue::Text(s) => s.clone(), _ => { return None } };
        let issue_type = match &fs[4] { FieldValue::Text(s) => s.clone(), _ => { return None } };
        let assignee = match &fs[5] { FieldValue::OptText(o) => clone_opt(o), _ => { return None } };
        let priority = match &fs[6] { FieldValue::OptText(o) => clone_opt(o), _ => { return None } };
        let epic = match &fs[7] { FieldValue::OptText(o) => clone_opt(o), _ => { return None } };
        let updated = match &fs[8] { FieldValue::Text(s) => s.clone(), _ => { return None } };
        let w = IssueSummary {
            key,
            summary,
            status,
            status_id,
            issue_type,
            assignee,
            priority,
            epic,
            updated,
        };
        proof {
            let fsv = fs.deep_view();
            assert(Self::spec_from_fields(fsv) is Some);
            assert(Self::spec_from_fields(fsv)->Some_0 =~= w@);
        }
        Some(w)
    }

    proof fn lemma_fields_round_trip(v: IssueSummaryView) {
        let fs = Self::spec_fields_of(v);
        assert(Self::spec_from_fields(fs) is Some);
        assert(Self::spec_from_fields(fs)->Some_0 =~= v);
    }
}

impl Cacheable for Issue {
    open spec fn spec_key_of(v: IssueView) -> Seq<char> {
        v.key
    }

    open spec fn spec_updated_of(v: IssueView) -> Option<Seq<char>> {
        Some(v.updated)
    }

    open spec fn spec_entity_type() -> Seq<char> {
        "issue"@
    }

    open spec fn spec_fields_of(v: IssueView) -> Seq<FieldView> {
        seq![
            FieldView::Text(v.key),
            FieldView::Text(v.summary),
            FieldView::OptText(v.description),
            FieldView::Text(v.status),
            FieldView::Text(v.status_id),
            FieldView::Text(v.issue_type),
            FieldView::OptText(v.assignee),
            FieldView::OptText(v.reporter),
            FieldView::OptText(v.priority),
            FieldView::TextList(v.labels),
            FieldView::Text(v.created),
            FieldView::Text(v.updated),
        ]
    }

    open spec fn spec_from_fields(fs: Seq<FieldView>) -> Option<IssueView> {
        if fs.len() == 12 && fs[0] is Text && fs[1] is Text && fs[2] is OptText && fs[3] is Text
            && fs[4] is Text && fs[5] is Text && fs[6] is OptText && fs[7] is OptText
            && fs[8] is OptText && fs[9] is TextList && fs[10] is Text && fs[11] is Text {
            Some(
                IssueView {
                    key: fs[0]->Text_0,
                    summary: fs[1]->Text_0,
                    description: fs[2]->OptText_0,
                    status: fs[3]->Text_0,
                    status_id: fs[4]->Text_0,
                    issue_type: fs[5]->Text_0,
                    assignee: fs[6]->OptText_0,
                    reporter: fs[7]->OptText_0,
                    priority: fs[8]->OptText_0,
                    labels: fs[9]->TextList_0,
                    created: fs[10]->Text_0,
                    updated: fs[11]->Text_0,
                },
            )
        } else {
            None
        }
    }

    fn cache_key(&self) -> (r: String) {
        self.key.clone()
    }

    fn updated_at(&self) -> (r: Option<String>) {
        Some(self.updated.clone())
    }

    fn entity_type() -> (r: String) {
        "issue".to_owned()
    }

    fn to_fields(&self) -> (r: Vec<FieldValue>) {
        let mut r: Vec<FieldValue> = Vec::new();
        r.push(FieldValue::Text(self.key.clone()));
        r.push(FieldValue::Text(self.summary.clone()));
        r.push(FieldValue::OptText(clone_opt(&self.description)));
        r.push(FieldValue::Text(self.status.clone()));
        r.push(FieldValue::Text(self.status_id.clone()));
        r.push(FieldValue::Text(self.issue_type.clone()));
        r.push(FieldValue::OptText(clone_opt(&self.assignee)));
        r.push(FieldValue::OptText(clone_opt(&self.reporter)));
        r.push(FieldValue::OptText(clone_opt(&self.priority)));
        r.push(FieldValue::TextList(clone_strings(&self.labels)));
        r.push(FieldValue::Text(self.created.clone()));
        r.push(FieldValue::Text(self.updated.clone()));
        proof {
            assert(r.deep_view() =~= Self::spec_fields_of(self@));
        }
        r
    }

    fn from_fields(fs: &Vec<FieldValue>) -> (r: Option<Self>) {
        if fs.len() != 12 {
            return None;
        }
        let key = match &fs[0] { FieldValue::Text(s) => s.clone(), _ => { return None } };
        let summary = match &fs[1] { FieldValue::Text(s) => s.clone(), _ => { return None } };
        let description = match &fs[2] {
            FieldValue::OptText(o) => clone_opt(o),
            _ => { return None },
        };
        let status = match &fs[3] { FieldValue::Text(s) => s.clone(), _ => { return None } };
        let status_id = match &fs[4] { FieldValue::Text(s) => s.clone(), _ => { return None } };
        let issue_type = match &fs[5] { FieldValue::Text(s) => s.clone(), _ => { return None } };
        let assignee = match &fs[6] { FieldValue::OptText(o) => clone_opt(o), _ => { return None } };
        let reporter = match &fs[7] { FieldValue::OptText(o) => clone_opt(o), _ => { return None } };
        let priority = match &fs[8] { FieldValue::OptText(o) => clone_opt(o), _ => { return None } };
        let labels = match &fs[9] {
            FieldValue::TextList(l) => clone_strings(l),
            _ => { return None },
        };
        let created = match &fs[10] { FieldValue::Text(s) => s.clone(), _ => { return None } };
        let updated = match &fs[11] { FieldValue::Text(s) => s.clone(), _ => { return None } };
        let w = Issue {
            key,
            summary,
            description,
            status,
            status_id,
            issue_type,
            assignee,
            reporter,
            priority,
            labels,
            created,
            updated,
        };
        proof {
            let fsv = fs.deep_view();
            assert(w.labels.deep_view() =~= fsv[9]->TextList_0);
            assert(Self::spec_from_fields(fsv) is Some);
            assert(Self::spec_from_fields(fsv)->Some_0 =~= w@);
        }
        Some(w)
    }

    proof fn lemma_fields_round_trip(v: IssueView) {
        let fs = Self::spec_fields_of(v);
        assert(Self::spec_from_fields(fs) is Some);
        assert(Self::spec_from_fields(fs)->Some_0 =~= v);
    }
}

impl Cacheable for Board {
    open spec fn spec_key_of(v: BoardView) -> Seq<char> {
        spec_decimal(v.id as int)
    }

    open spec fn spec_updated_of(v: BoardView) -> Option<Seq<char>> {
        None
    }

    open spec fn spec_entity_type() -> Seq<char> {
        "board"@
    }

    open spec fn spec_fields_of(v: BoardView) -> Seq<FieldView> {
        seq![FieldView::Uint(v.id), FieldView::Text(v.name), FieldView::Text(v.board_type)]
    }

    open spec fn spec_from_fields(fs: Seq<FieldView>) -> Option<BoardView> {
        if fs.len() == 3 && fs[0] is Uint && fs[1] is Text && fs[2] is Text {
            Some(
                BoardView {
                    id: fs[0]->Uint_0,
                    name: fs[1]->Text_0,
                    board_type: fs[2]->Text_0,
                },
            )
        } else {
            None
        }
    }

    fn cache_key(&self) -> (r: String) {
        u64_string(self.id)
    }

    fn updated_at(&self) -> (r: Option<String>) {
        None
    }

    fn entity_type() -> (r: String) {
        "board".to_owned()
    }

    fn to_fields(&self) -> (r: Vec<FieldValue>) {
        let mut r: Vec<FieldValue> = Vec::new();
        r.push(FieldValue::Uint(self.id));
        r.push(FieldValue::Text(self.name.clone()));
        r.push(FieldValue::Text(self.board_type.clone()));
        proof {
            assert(r.deep_view() =~= Self::spec_fields_of(self@));
        }
        r
    }

    fn from_fields(fs: &Vec<FieldValue>) -> (r: Option<Self>) {
        if fs.len() != 3 {
            return None;
        }
        let id = match &fs[0] { FieldValue::Uint(n) => *n, _ => { return None } };
        let name = match &fs[1] { FieldValue::Text(s) => s.clone(), _ => { return None } };
        let board_type = match &fs[2] { FieldValue::Text(s) => s.clone(), _ => { return None } };
        let w = Board { id, name, board_type };
        proof {
            let fsv = fs.deep_view();
            assert(Self::spec_from_fields(fsv) is Some);
            assert(Self::spec_from_fields(fsv)->Some_0 =~= w@);
        }
        Some(w)
    }

    proof fn lemma_fields_round_trip(v: BoardView) {
        let fs = Self::spec_fields_of(v);
        assert(Self::spec_from_fields(fs) is Some);
        assert(Self::spec_from_fields(fs)->Some_0 =~= v);
    }
}

/// Clone a vector of strings, preserving its view.
pub fn clone_strings(v: &Vec<String>) -> (r: Vec<String>)
    ensures
        r.deep_view() == v.deep_view(),
{
    let mut r: Vec<String> = Vec::new();
    let n = v.len();
    let mut i: usize = 0;
    while i < n
        invariant
            n == v.len(),
            0 <= i <= n,
            r@.len() == i,
            forall|j: int| 0 <= j < i ==> r.deep_view()[j] == v.deep_view()[j],
        decreases n - i,
    {
        r.push(v[i].clone());
        i += 1;
    }
    proof {
        assert(r.deep_view() =~= v.deep_view());
    }
    r
}

/// Clone an optional string, preserving its view.
pub fn clone_opt(o: &Option<String>) -> (r: Option<String>)
    ensures
        opt_view(r) == opt_view(*o),
{
    match o {
        Some(s) => Some(s.clone()),
        None => None,
    }
}

} // verus!

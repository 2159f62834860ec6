//! What is shown for one repository.
use crate::model::{
    inspection_label, result_detail, Inspection, InspectionView, SyncKind, SyncResult,
    SyncResultView,
};
use crate::paint::{unstyled, Color, Style};
use crate::plan::{SyncPlan, SyncPlanView};
use crate::text::{concat, decimal, join, joined, number, texts};
use vstd::prelude::*;

verus! {

/// What goes on with a repository.
#[derive(Debug, PartialEq, Eq)]
pub enum RowState {
    Idle,
    Queued,
    Checking,
    Waiting,
    Ready(Inspection),
    Planning,
    Prepared(String),
    Updating(String),
    Finished(SyncResult),
}

/// The contents of a [`RowState`].
#[verifier::ext_equal]
pub enum RowView {
    Idle,
    Queued,
    Checking,
    Waiting,
    Ready(InspectionView),
    Planning,
    Prepared(Seq<char>),
    Updating(Seq<char>),
    Finished(SyncResultView),
}

impl View for RowState {
    type V = RowView;

    open spec fn view(&self) -> RowView {
        match self {
            RowState::Idle => RowView::Idle,
            RowState::Queued => RowView::Queued,
            RowState::Checking => RowView::Checking,
            RowState::Waiting => RowView::Waiting,
            RowState::Ready(inspection) => RowView::Ready(inspection@),
            RowState::Planning => RowView::Planning,
            RowState::Prepared(detail) => RowView::Prepared(detail@),
            RowState::Updating(detail) => RowView::Updating(detail@),
            RowState::Finished(result) => RowView::Finished(result@),
        }
    }
}

impl Clone for RowState {
    fn clone(&self) -> (copy: Self)
        ensures
            copy@ == self@,
    {
        match self {
            RowState::Idle => RowState::Idle,
            RowState::Queued => RowState::Queued,
            RowState::Checking => RowState::Checking,
            RowState::Waiting => RowState::Waiting,
            RowState::Ready(inspection) => RowState::Ready(inspection.clone()),
            RowState::Planning => RowState::Planning,
            RowState::Prepared(detail) => RowState::Prepared(detail.clone()),
            RowState::Updating(detail) => RowState::Updating(detail.clone()),
            RowState::Finished(result) => RowState::Finished(result.clone()),
        }
    }
}

/// The contents of a list of states.
pub open spec fn rows(list: Seq<RowState>) -> Seq<RowView> {
    Seq::new(list.len(), |i: int| list[i]@)
}

/// The word for a state.
pub open spec fn row_label(row: RowView) -> Seq<char> {
    match row {
        RowView::Idle => "idle"@,
        RowView::Queued => "queued"@,
        RowView::Checking => "checking"@,
        RowView::Waiting => "waiting"@,
        RowView::Ready(inspection) => inspection_label(inspection),
        RowView::Planning => "fetching"@,
        RowView::Prepared(_) => "queued"@,
        RowView::Updating(_) => "pulling"@,
        RowView::Finished(result) => match result.kind {
            SyncKind::Updated => "updated"@,
            SyncKind::Skipped => "skipped"@,
            SyncKind::Failed => "failed"@,
        },
    }
}

/// The color of a state.
pub open spec fn row_color(row: RowView) -> Color {
    match row {
        RowView::Ready(inspection) => if inspection.error is Some {
            Color::Red
        } else if inspection.dirty {
            Color::Yellow
        } else if inspection.updates is Some && inspection.updates->0 > 0 {
            Color::Green
        } else {
            Color::DarkGray
        },
        RowView::Finished(result) => match result.kind {
            SyncKind::Updated => Color::Green,
            SyncKind::Failed => Color::Red,
            SyncKind::Skipped => Color::DarkGray,
        },
        RowView::Checking | RowView::Planning | RowView::Prepared(_) | RowView::Updating(
            _,
        ) => Color::Cyan,
        RowView::Idle | RowView::Queued | RowView::Waiting => Color::Gray,
    }
}

/// A list with one more text, where there is one.
pub open spec fn with_part(
    parts: Seq<Seq<char>>,
    key: Seq<char>,
    value: Option<Seq<char>>,
) -> Seq<Seq<char>> {
    match value {
        Some(text) => parts.push(key + text),
        None => parts,
    }
}

/// What an inspection found, in parts.
pub open spec fn inspection_parts(inspection: InspectionView) -> Seq<Seq<char>> {
    let branch = with_part(seq![], "branch="@, inspection.branch);
    let compared = with_part(branch, "compare="@, inspection.compare_ref);
    let counted = with_part(
        compared,
        "remote updates="@,
        match inspection.updates {
            Some(count) => Some(decimal(count as nat)),
            None => None,
        },
    );
    if inspection.dirty {
        counted.push("local dirty"@)
    } else {
        counted
    }
}

/// What is said of a state.
pub open spec fn row_detail(row: RowView) -> Seq<char> {
    match row {
        RowView::Ready(inspection) => match inspection.error {
            Some(error) => error,
            None => joined(inspection_parts(inspection), "  ·  "@),
        },
        RowView::Finished(result) => result_detail(result),
        RowView::Prepared(detail) | RowView::Updating(detail) => detail,
        _ => row_label(row),
    }
}

fn push_part(parts: &mut Vec<String>, key: &str, value: &str)
    ensures
        texts(final(parts)@) == texts(old(parts)@).push(key@ + value@),
{
    parts.push(concat(key, value));
    assert(texts(parts@) =~= texts(old(parts)@).push(key@ + value@));
}

impl RowState {
    /// The word for this state.
    pub fn label(&self) -> (text: String)
        ensures
            text@ == row_label(self@),
    {
        match self {
            RowState::Idle => "idle".to_owned(),
            RowState::Queued => "queued".to_owned(),
            RowState::Checking => "checking".to_owned(),
            RowState::Waiting => "waiting".to_owned(),
            RowState::Ready(inspection) => inspection.label().to_owned(),
            RowState::Planning => "fetching".to_owned(),
            RowState::Prepared(_) => "queued".to_owned(),
            RowState::Updating(_) => "pulling".to_owned(),
            RowState::Finished(result) => match result.kind {
                SyncKind::Updated => "updated".to_owned(),
                SyncKind::Skipped => "skipped".to_owned(),
                SyncKind::Failed => "failed".to_owned(),
            },
        }
    }

    /// How this state is drawn.
    pub fn style(&self) -> (style: Style)
        ensures
            style == (Style { foreground: Some(row_color(self@)), ..unstyled() }),
    {
        let color = match self {
            RowState::Ready(inspection) => if inspection.error.is_some() {
                Color::Red
            } else if inspection.dirty {
                Color::Yellow
            } else if inspection.has_updates() {
                Color::Green
            } else {
                Color::DarkGray
            },
            RowState::Finished(result) => match result.kind {
                SyncKind::Updated => Color::Green,
                SyncKind::Failed => Color::Red,
                SyncKind::Skipped => Color::DarkGray,
            },
            RowState::Checking | RowState::Planning | RowState::Prepared(_) | RowState::Updating(
                _,
            ) => Color::Cyan,
            RowState::Idle | RowState::Queued | RowState::Waiting => Color::Gray,
        };
        Style::colored(color)
    }

    /// What is said of this state.
    pub fn detail(&self) -> (text: String)
        ensures
            text@ == row_detail(self@),
    {
        match self {
            RowState::Ready(inspection) => {
                if let Some(error) = &inspection.error {
                    return error.clone();
                }
                let mut parts: Vec<String> = Vec::new();
                assert(texts(parts@) =~= Seq::<Seq<char>>::empty());
                if let Some(branch) = &inspection.branch {
                    push_part(&mut parts, "branch=", branch.as_str());
                }
                if let Some(reference) = &inspection.compare_ref {
                    push_part(&mut parts, "compare=", reference.as_str());
                }
                if let Some(updates) = inspection.updates {
                    let digits = number(updates as u128);
                    push_part(&mut parts, "remote updates=", digits.as_str());
                }
                if inspection.dirty {
                    let ghost before = texts(parts@);
                    parts.push("local dirty".to_owned());
                    assert(texts(parts@) =~= before.push("local dirty"@));
                }
                join(&parts, "  ·  ")
            },
            RowState::Finished(result) => result.describe(),
            RowState::Prepared(detail) => detail.clone(),
            RowState::Updating(detail) => detail.clone(),
            _ => self.label(),
        }
    }
}

/// What is said of a plan.
pub open spec fn plan_detail(plan: SyncPlanView) -> Seq<char> {
    "branch="@ + plan.branch + "  ·  compare="@ + plan.compare_ref + "  ·  remote updates="@
        + decimal(plan.update_count as nat)
}

/// What is said of a plan.
pub fn sync_plan_detail(plan: &SyncPlan) -> (text: String)
    ensures
        text@ == plan_detail(plan@),
{
    let mut text = concat("branch=", plan.branch.as_str());
    text.append("  ·  compare=");
    text.append(plan.compare_ref.as_str());
    text.append("  ·  remote updates=");
    text.append(number(plan.update_count as u128).as_str());
    text
}

/// What is said of a worker that panicked, given the text it left, where it left one.
pub fn panic_detail(message: Option<&str>) -> (text: String)
    ensures
        text@ == match message {
            Some(message) => message@,
            None => "background worker panicked"@,
        },
{
    match message {
        Some(message) => message.to_owned(),
        None => "background worker panicked".to_owned(),
    }
}

} // verus!

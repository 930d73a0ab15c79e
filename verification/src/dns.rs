//! Reconciliation of a remote DNS address record against a target address.
//!
//! One pass looks the record name up in the zone, then decides on exactly
//! one step: create the record, update it, or leave it alone. Ambiguous
//! states (more than one matching record) and records of a different
//! content kind are surfaced as errors, never auto-resolved. The remote
//! calls themselves (lookup, create, update) are network I/O performed by
//! the surrounding program; this module owns every decision between them.

use vstd::prelude::*;

use crate::ipv4::Ipv4;

verus! {

/// Content of a remote DNS record: an address, or a value of any other
/// record kind (carried as the kind's name).
#[derive(Debug, PartialEq, Eq)]
pub enum RecordContent {
    A(Ipv4),
    Other(String),
}

/// Spec-level form of `RecordContent`.
pub enum ContentView {
    A(Ipv4),
    Other(Seq<char>),
}

impl View for RecordContent {
    type V = ContentView;

    open spec fn view(&self) -> ContentView {
        match self {
            RecordContent::A(ip) => ContentView::A(*ip),
            RecordContent::Other(kind) => ContentView::Other(kind@),
        }
    }
}

/// A remote DNS record, as returned by the zone lookup.
#[derive(Debug, PartialEq, Eq)]
pub struct ZoneRecord {
    pub id: String,
    pub name: String,
    pub content: RecordContent,
}

/// Spec-level form of `ZoneRecord`.
pub struct ZoneRecordView {
    pub id: Seq<char>,
    pub name: Seq<char>,
    pub content: ContentView,
}

impl View for ZoneRecord {
    type V = ZoneRecordView;

    open spec fn view(&self) -> ZoneRecordView {
        ZoneRecordView { id: self.id@, name: self.name@, content: self.content@ }
    }
}

/// The single step a reconciliation pass decides on.
#[derive(Debug, PartialEq, Eq)]
pub enum Action {
    Create { name: String, addr: Ipv4 },
    Update { id: String, name: String, addr: Ipv4 },
    Noop,
}

/// Spec-level form of `Action`.
pub enum ActionView {
    Create { name: Seq<char>, addr: Ipv4 },
    Update { id: Seq<char>, name: Seq<char>, addr: Ipv4 },
    Noop,
}

impl View for Action {
    type V = ActionView;

    open spec fn view(&self) -> ActionView {
        match self {
            Action::Create { name, addr } => ActionView::Create { name: name@, addr: *addr },
            Action::Update { id, name, addr } => ActionView::Update {
                id: id@,
                name: name@,
                addr: *addr,
            },
            Action::Noop => ActionView::Noop,
        }
    }
}

/// A reconciliation failure: an ambiguous zone state, or a matching record
/// of a content kind this system does not manage.
#[derive(Debug, PartialEq, Eq)]
pub enum Error {
    WrongRecordCount(usize),
    UnexpectedRecordType(RecordContent),
}

/// Spec-level form of `Error`.
pub enum ErrorView {
    WrongRecordCount(int),
    UnexpectedRecordType(ContentView),
}

impl View for Error {
    type V = ErrorView;

    open spec fn view(&self) -> ErrorView {
        match self {
            Error::WrongRecordCount(n) => ErrorView::WrongRecordCount(*n as int),
            Error::UnexpectedRecordType(c) => ErrorView::UnexpectedRecordType(c@),
        }
    }
}

/// The spec-level views of a lookup result.
pub open spec fn record_views(records: Seq<ZoneRecord>) -> Seq<ZoneRecordView> {
    records.map_values(|z: ZoneRecord| z@)
}

/// The spec-level view of a decision.
pub open spec fn outcome_view(r: Result<Action, Error>) -> Result<ActionView, ErrorView> {
    match r {
        Ok(a) => Ok(a@),
        Err(e) => Err(e@),
    }
}

/// What one reconciliation pass decides, given the records that matched the
/// record name and the target address: create on zero matches, compare on
/// one match (no-op when current, update otherwise), refuse two or more
/// matches, and refuse a match of a different content kind.
pub open spec fn spec_decide(
    name: Seq<char>,
    records: Seq<ZoneRecordView>,
    target: Ipv4,
) -> Result<ActionView, ErrorView> {
    if records.len() == 0 {
        Ok(ActionView::Create { name, addr: target })
    } else if records.len() == 1 {
        match records[0].content {
            ContentView::A(current) => if current == target {
                Ok(ActionView::Noop)
            } else {
                Ok(ActionView::Update { id: records[0].id, name: records[0].name, addr: target })
            },
            ContentView::Other(kind) => Err(
                ErrorView::UnexpectedRecordType(ContentView::Other(kind)),
            ),
        }
    } else {
        Err(ErrorView::WrongRecordCount(records.len() as int))
    }
}

/// Whether an action issues a mutating call to the DNS provider.
pub open spec fn is_mutating(a: ActionView) -> bool {
    !(a is Noop)
}

/// Decide the single step of one reconciliation pass. `records` is the
/// zone lookup's result for `name`; the caller performs the returned
/// action (a failure performs nothing).
pub fn decide(name: &String, records: &Vec<ZoneRecord>, target: Ipv4) -> (r: Result<Action, Error>)
    ensures
        outcome_view(r) == spec_decide(name@, record_views(records@), target),
{
    if records.len() == 0 {
        Ok(Action::Create { name: name.clone(), addr: target })
    } else if records.len() == 1 {
        let entry = &records[0];
        match &entry.content {
            RecordContent::A(current) => {
                if *current == target {
                    Ok(Action::Noop)
                } else {
                    Ok(
                        Action::Update {
                            id: entry.id.clone(),
                            name: entry.name.clone(),
                            addr: target,
                        },
                    )
                }
            },
            RecordContent::Other(kind) => Err(
                Error::UnexpectedRecordType(RecordContent::Other(kind.clone())),
            ),
        }
    } else {
        Err(Error::WrongRecordCount(records.len()))
    }
}

/// The records matching the name after the decided action is carried out;
/// `new_id` is whatever identifier the provider assigns to a created
/// record.
pub open spec fn records_after(
    records: Seq<ZoneRecordView>,
    a: ActionView,
    new_id: Seq<char>,
) -> Seq<ZoneRecordView> {
    match a {
        ActionView::Create { name, addr } => seq![
            ZoneRecordView { id: new_id, name, content: ContentView::A(addr) },
        ],
        ActionView::Update { id, name, addr } => seq![
            ZoneRecordView { id, name, content: ContentView::A(addr) },
        ],
        ActionView::Noop => records,
    }
}

/// Law: a successful pass leaves the zone in a state in which a second
/// pass with the same target decides a no-op — reconciliation is
/// idempotent, and a rerun issues zero mutating calls.
pub proof fn lemma_reconcile_idempotent(
    name: Seq<char>,
    records: Seq<ZoneRecordView>,
    target: Ipv4,
    a: ActionView,
    new_id: Seq<char>,
)
    requires
        spec_decide(name, records, target) == Ok::<ActionView, ErrorView>(a),
    ensures
        spec_decide(name, records_after(records, a, new_id), target) == Ok::<
            ActionView,
            ErrorView,
        >(ActionView::Noop),
        !is_mutating(ActionView::Noop),
{
    let after = records_after(records, a, new_id);
    match a {
        ActionView::Create { name: n, addr } => {
            assert(after.len() == 1);
        },
        ActionView::Update { id, name: n, addr } => {
            assert(after.len() == 1);
        },
        ActionView::Noop => {},
    }
}

/// Law: two or more matching records are an ambiguity the reconciler
/// refuses; it decides no action at all, reporting the offending count.
pub proof fn lemma_ambiguity_guard(name: Seq<char>, records: Seq<ZoneRecordView>, target: Ipv4)
    requires
        records.len() >= 2,
    ensures
        spec_decide(name, records, target) == Err::<ActionView, ErrorView>(
            ErrorView::WrongRecordCount(records.len() as int),
        ),
{
}

/// Law: a single matching record whose content is not an address is
/// refused; the reconciler decides no action at all, reporting the
/// offending content.
pub proof fn lemma_type_guard(name: Seq<char>, records: Seq<ZoneRecordView>, target: Ipv4)
    requires
        records.len() == 1,
        !(records[0].content is A),
    ensures
        spec_decide(name, records, target) == Err::<ActionView, ErrorView>(
            ErrorView::UnexpectedRecordType(records[0].content),
        ),
{
}

} // verus!

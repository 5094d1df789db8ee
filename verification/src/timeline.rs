//! The timeline of an issue: the title, status and label changes recorded
//! in its operation history, with the title each change replaced.

use vstd::prelude::*;

verus! {

/// The kind of a recorded issue operation.
#[derive(Clone, Copy, PartialEq, Eq, Structural, Debug)]
pub enum OperationKind {
    Create,
    SetTitle,
    SetStatus,
    LabelChange,
    /// Comment operations and anything else, which the comments view shows
    Other,
}

/// The status an operation sets.
#[derive(Clone, Copy, PartialEq, Eq, Structural, Debug)]
pub enum BugStatus {
    Open,
    Closed,
}

/// One recorded operation of an issue.
pub struct TimelineOp {
    pub kind: OperationKind,
    /// Unix timestamp
    pub timestamp: i64,
    pub title: Option<String>,
    pub status: Option<BugStatus>,
    pub added: Option<Vec<String>>,
    pub removed: Option<Vec<String>>,
}

/// The operations one author recorded together, with the author's username.
pub struct TimelinePack {
    pub author_username: String,
    pub ops: Vec<TimelineOp>,
}

/// Type of a timeline event (`created`, `title_changed`, `status_changed`,
/// `label_added`, `label_removed`).
#[derive(Clone, Copy, PartialEq, Eq, Structural, Debug)]
pub enum TimelineKind {
    Created,
    TitleChanged,
    StatusChanged,
    LabelAdded,
    LabelRemoved,
}

/// New status shown by a `status_changed` event (`open` or `closed`).
#[derive(Clone, Copy, PartialEq, Eq, Structural, Debug)]
pub enum TimelineStatus {
    Open,
    Closed,
}

/// One event of an issue timeline.
pub struct TimelineEvent {
    pub kind: TimelineKind,
    /// Unix timestamp
    pub timestamp: i64,
    /// Actor username
    pub author_username: String,
    /// Previous title, set for `title_changed` events
    pub old_title: Option<String>,
    /// New title, set for `title_changed` events
    pub new_title: Option<String>,
    /// New status, set for `status_changed` events
    pub status: Option<TimelineStatus>,
    /// Label name, set for `label_added` and `label_removed` events
    pub label: Option<String>,
}

/// Mathematical view of a [`TimelineEvent`].
pub struct EventModel {
    pub kind: TimelineKind,
    pub timestamp: i64,
    pub author_username: Seq<char>,
    pub old_title: Option<Seq<char>>,
    pub new_title: Option<Seq<char>>,
    pub status: Option<TimelineStatus>,
    pub label: Option<Seq<char>>,
}

/// The text of an optional string.
pub open spec fn opt_text(o: Option<String>) -> Option<Seq<char>> {
    match o {
        Some(s) => Some(s@),
        None => None,
    }
}

impl View for TimelineEvent {
    type V = EventModel;

    open spec fn view(&self) -> EventModel {
        EventModel {
            kind: self.kind,
            timestamp: self.timestamp,
            author_username: self.author_username@,
            old_title: opt_text(self.old_title),
            new_title: opt_text(self.new_title),
            status: self.status,
            label: opt_text(self.label),
        }
    }
}

/// The title an operation carries, or the empty text.
pub open spec fn op_title(op: TimelineOp) -> Seq<char> {
    match op.title {
        Some(t) => t@,
        None => Seq::empty(),
    }
}

/// One label event per label, in order.
pub open spec fn label_events(labels: Option<Vec<String>>, kind: TimelineKind, timestamp: i64, author: Seq<char>) -> Seq<EventModel> {
    match labels {
        Some(v) => v@.map_values(
            |l: String|
                EventModel {
                    kind,
                    timestamp,
                    author_username: author,
                    old_title: None,
                    new_title: None,
                    status: None,
                    label: Some(l@),
                },
        ),
        None => Seq::empty(),
    }
}

/// The events one operation adds, given the title it finds.
pub open spec fn op_events(op: TimelineOp, author: Seq<char>, title: Seq<char>) -> Seq<EventModel> {
    let base = EventModel {
        kind: TimelineKind::Created,
        timestamp: op.timestamp,
        author_username: author,
        old_title: None,
        new_title: None,
        status: None,
        label: None,
    };
    match op.kind {
        OperationKind::Create => seq![base],
        OperationKind::SetTitle => seq![
            EventModel {
                kind: TimelineKind::TitleChanged,
                old_title: Some(title),
                new_title: Some(op_title(op)),
                ..base
            },
        ],
        OperationKind::SetStatus => seq![
            EventModel {
                kind: TimelineKind::StatusChanged,
                status: Some(
                    if op.status == Some(BugStatus::Open) {
                        TimelineStatus::Open
                    } else {
                        TimelineStatus::Closed
                    },
                ),
                ..base
            },
        ],
        OperationKind::LabelChange => label_events(
            op.added,
            TimelineKind::LabelAdded,
            op.timestamp,
            author,
        ) + label_events(op.removed, TimelineKind::LabelRemoved, op.timestamp, author),
        OperationKind::Other => Seq::empty(),
    }
}

/// The title after an operation: creating or retitling sets it.
pub open spec fn title_after(op: TimelineOp, title: Seq<char>) -> Seq<char> {
    match op.kind {
        OperationKind::Create | OperationKind::SetTitle => op_title(op),
        _ => title,
    }
}

/// The events of a run of operations, starting from the given title.
pub open spec fn ops_timeline(ops: Seq<TimelineOp>, author: Seq<char>, title: Seq<char>) -> Seq<EventModel>
    decreases ops.len(),
{
    if ops.len() == 0 {
        Seq::empty()
    } else {
        op_events(ops[0], author, title) + ops_timeline(ops.drop_first(), author, title_after(ops[0], title))
    }
}

/// The title after a run of operations.
pub open spec fn ops_title(ops: Seq<TimelineOp>, title: Seq<char>) -> Seq<char>
    decreases ops.len(),
{
    if ops.len() == 0 {
        title
    } else {
        ops_title(ops.drop_first(), title_after(ops[0], title))
    }
}

/// The timeline of an issue's packs of operations, starting from the given title.
pub open spec fn timeline(packs: Seq<TimelinePack>, title: Seq<char>) -> Seq<EventModel>
    decreases packs.len(),
{
    if packs.len() == 0 {
        Seq::empty()
    } else {
        ops_timeline(packs[0].ops@, packs[0].author_username@, title) + timeline(
            packs.drop_first(),
            ops_title(packs[0].ops@, title),
        )
    }
}

/// The views of a sequence of events.
pub open spec fn event_views(v: Seq<TimelineEvent>) -> Seq<EventModel> {
    v.map_values(|e: TimelineEvent| e@)
}

fn push_label_events(
    events: &mut Vec<TimelineEvent>,
    labels: &Option<Vec<String>>,
    kind: TimelineKind,
    timestamp: i64,
    author: &String,
)
    ensures
        event_views(final(events)@) == event_views(old(events)@) + label_events(
            *labels,
            kind,
            timestamp,
            author@,
        ),
{
    let ghost start = event_views(events@);
    match labels {
        Some(v) => {
            let mut i: usize = 0;
            while i < v.len()
                invariant
                    i <= v@.len(),
                    *labels == Some(*v),
                    event_views(events@) == start + label_events(*labels, kind, timestamp, author@).take(
                        i as int,
                    ),
                decreases v@.len() - i,
            {
                let ghost before = event_views(events@);
                events.push(
                    TimelineEvent {
                        kind,
                        timestamp,
                        author_username: author.clone(),
                        old_title: None,
                        new_title: None,
                        status: None,
                        label: Some(v[i].clone()),
                    },
                );
                assert(event_views(events@) =~= before.push(events@.last()@));
                assert(label_events(*labels, kind, timestamp, author@)[i as int] == events@.last()@);
                assert(label_events(*labels, kind, timestamp, author@).take(i + 1) =~= label_events(
                    *labels,
                    kind,
                    timestamp,
                    author@,
                ).take(i as int).push(events@.last()@));
                i += 1;
            }
            assert(label_events(*labels, kind, timestamp, author@).take(i as int) =~= label_events(
                *labels,
                kind,
                timestamp,
                author@,
            ));
        },
        None => {
            assert(event_views(events@) =~= start + label_events(*labels, kind, timestamp, author@));
        },
    }
}

fn push_op_events(events: &mut Vec<TimelineEvent>, op: &TimelineOp, author: &String, title: &String)
    ensures
        event_views(final(events)@) == event_views(old(events)@) + op_events(*op, author@, title@),
{
    let ghost start = event_views(events@);
    let new_title = match &op.title {
        Some(t) => t.clone(),
        None => String::new(),
    };
    match op.kind {
        OperationKind::Create => {
            events.push(
                TimelineEvent {
                    kind: TimelineKind::Created,
                    timestamp: op.timestamp,
                    author_username: author.clone(),
                    old_title: None,
                    new_title: None,
                    status: None,
                    label: None,
                },
            );
            assert(event_views(events@) =~= start + op_events(*op, author@, title@));
        },
        OperationKind::SetTitle => {
            events.push(
                TimelineEvent {
                    kind: TimelineKind::TitleChanged,
                    timestamp: op.timestamp,
                    author_username: author.clone(),
                    old_title: Some(title.clone()),
                    new_title: Some(new_title),
                    status: None,
                    label: None,
                },
            );
            assert(event_views(events@) =~= start + op_events(*op, author@, title@));
        },
        OperationKind::SetStatus => {
            let status = match op.status {
                Some(BugStatus::Open) => TimelineStatus::Open,
                _ => TimelineStatus::Closed,
            };
            events.push(
                TimelineEvent {
                    kind: TimelineKind::StatusChanged,
                    timestamp: op.timestamp,
                    author_username: author.clone(),
                    old_title: None,
                    new_title: None,
                    status: Some(status),
                    label: None,
                },
            );
            assert(event_views(events@) =~= start + op_events(*op, author@, title@));
        },
        OperationKind::LabelChange => {
            push_label_events(events, &op.added, TimelineKind::LabelAdded, op.timestamp, author);
            push_label_events(events, &op.removed, TimelineKind::LabelRemoved, op.timestamp, author);
            assert(event_views(events@) =~= start + op_events(*op, author@, title@));
        },
        OperationKind::Other => {
            assert(event_views(events@) =~= start + op_events(*op, author@, title@));
        },
    }
}

/// The timeline of an issue from its recorded operations: creation, title
/// changes with the title they replaced, status changes, and one event per
/// label added or removed. Comment operations are left to the comments view.
pub fn build_timeline(packs: &Vec<TimelinePack>) -> (events: Vec<TimelineEvent>)
    ensures
        event_views(events@) == timeline(packs@, Seq::empty()),
{
    let mut events: Vec<TimelineEvent> = Vec::new();
    let mut current_title = String::new();
    let mut i: usize = 0;
    assert(packs@.skip(0) =~= packs@);
    assert(event_views(events@) =~= Seq::<EventModel>::empty());
    while i < packs.len()
        invariant
            i <= packs@.len(),
            timeline(packs@, Seq::empty()) == event_views(events@) + timeline(
                packs@.skip(i as int),
                current_title@,
            ),
        decreases packs@.len() - i,
    {
        let pack = &packs[i];
        let ghost t0 = current_title@;
        let ghost e0 = event_views(events@);
        let mut k: usize = 0;
        assert(pack.ops@.skip(0) =~= pack.ops@);
        while k < pack.ops.len()
            invariant
                k <= pack.ops@.len(),
                e0 + ops_timeline(pack.ops@, pack.author_username@, t0) == event_views(events@)
                    + ops_timeline(pack.ops@.skip(k as int), pack.author_username@, current_title@),
                ops_title(pack.ops@, t0) == ops_title(pack.ops@.skip(k as int), current_title@),
            decreases pack.ops@.len() - k,
        {
            let op = &pack.ops[k];
            let ghost before = event_views(events@);
            let ghost cur = current_title@;
            let ghost rest = pack.ops@.skip(k as int);
            push_op_events(&mut events, op, &pack.author_username, &current_title);
            assert(rest.drop_first() =~= pack.ops@.skip(k + 1));
            assert(rest[0] == *op);
            match op.kind {
                OperationKind::Create | OperationKind::SetTitle => {
                    current_title = match &op.title {
                        Some(t) => t.clone(),
                        None => String::new(),
                    };
                },
                _ => {},
            }
            assert(current_title@ == title_after(*op, cur));
            assert(ops_timeline(rest, pack.author_username@, cur) == op_events(
                *op,
                pack.author_username@,
                cur,
            ) + ops_timeline(pack.ops@.skip(k + 1), pack.author_username@, current_title@));
            assert(ops_title(rest, cur) == ops_title(pack.ops@.skip(k + 1), current_title@));
            assert(event_views(events@) + ops_timeline(
                pack.ops@.skip(k + 1),
                pack.author_username@,
                current_title@,
            ) =~= before + ops_timeline(rest, pack.author_username@, cur));
            k += 1;
        }
        assert(pack.ops@.skip(k as int) =~= Seq::<TimelineOp>::empty());
        assert(packs@.skip(i as int).drop_first() =~= packs@.skip(i + 1));
        assert(packs@.skip(i as int)[0] == *pack);
        assert(event_views(events@) + timeline(packs@.skip(i + 1), current_title@) =~= e0 + timeline(
            packs@.skip(i as int),
            t0,
        ));
        i += 1;
    }
    assert(packs@.skip(i as int) =~= Seq::<TimelinePack>::empty());
    events
}

/// Which fields an event carries, by its type: titles only for
/// `title_changed`, a status only for `status_changed`, a label only for
/// `label_added` and `label_removed`.
pub open spec fn fields_match_kind(e: EventModel) -> bool {
    &&& (e.old_title is Some <==> e.kind == TimelineKind::TitleChanged)
    &&& (e.new_title is Some <==> e.kind == TimelineKind::TitleChanged)
    &&& (e.status is Some <==> e.kind == TimelineKind::StatusChanged)
    &&& (e.label is Some <==> (e.kind == TimelineKind::LabelAdded || e.kind
        == TimelineKind::LabelRemoved))
}

proof fn lemma_op_events_fields(op: TimelineOp, author: Seq<char>, title: Seq<char>)
    ensures
        forall|i: int|
            0 <= i < op_events(op, author, title).len() ==> fields_match_kind(
                #[trigger] op_events(op, author, title)[i],
            ),
{
    let evs = op_events(op, author, title);
    if op.kind == OperationKind::LabelChange {
        let a = label_events(op.added, TimelineKind::LabelAdded, op.timestamp, author);
        let r = label_events(op.removed, TimelineKind::LabelRemoved, op.timestamp, author);
        assert forall|i: int| 0 <= i < evs.len() implies fields_match_kind(#[trigger] evs[i]) by {
            if i < a.len() {
                assert(evs[i] == a[i]);
            } else {
                assert(evs[i] == r[i - a.len()]);
            }
        }
    }
}

proof fn lemma_ops_timeline_fields(ops: Seq<TimelineOp>, author: Seq<char>, title: Seq<char>)
    ensures
        forall|i: int|
            0 <= i < ops_timeline(ops, author, title).len() ==> fields_match_kind(
                #[trigger] ops_timeline(ops, author, title)[i],
            ),
    decreases ops.len(),
{
    if ops.len() > 0 {
        let a = op_events(ops[0], author, title);
        let r = ops_timeline(ops.drop_first(), author, title_after(ops[0], title));
        lemma_op_events_fields(ops[0], author, title);
        lemma_ops_timeline_fields(ops.drop_first(), author, title_after(ops[0], title));
        assert forall|i: int| 0 <= i < (a + r).len() implies fields_match_kind(#[trigger] (a + r)[i]) by {
            if i < a.len() {
                assert((a + r)[i] == a[i]);
            } else {
                assert((a + r)[i] == r[i - a.len()]);
            }
        }
    }
}

/// Law: every timeline event carries exactly the fields its type documents.
pub proof fn lemma_timeline_fields(packs: Seq<TimelinePack>, title: Seq<char>)
    ensures
        forall|i: int|
            0 <= i < timeline(packs, title).len() ==> fields_match_kind(
                #[trigger] timeline(packs, title)[i],
            ),
    decreases packs.len(),
{
    if packs.len() > 0 {
        let a = ops_timeline(packs[0].ops@, packs[0].author_username@, title);
        let r = timeline(packs.drop_first(), ops_title(packs[0].ops@, title));
        lemma_ops_timeline_fields(packs[0].ops@, packs[0].author_username@, title);
        lemma_timeline_fields(packs.drop_first(), ops_title(packs[0].ops@, title));
        assert forall|i: int| 0 <= i < (a + r).len() implies fields_match_kind(#[trigger] (a + r)[i]) by {
            if i < a.len() {
                assert((a + r)[i] == a[i]);
            } else {
                assert((a + r)[i] == r[i - a.len()]);
            }
        }
    }
}

/// Law: a status operation gives exactly one `status_changed` event, at
/// the operation's time and by its author, and the event reports the
/// status the operation set: open exactly when it set the issue open,
/// closed when it set it closed (or recorded no status).
pub proof fn lemma_status_events_report_the_status_set(op: TimelineOp, author: Seq<char>, title: Seq<char>)
    requires
        op.kind == OperationKind::SetStatus,
    ensures
        op_events(op, author, title).len() == 1,
        op_events(op, author, title)[0].kind == TimelineKind::StatusChanged,
        op_events(op, author, title)[0].timestamp == op.timestamp,
        op_events(op, author, title)[0].author_username == author,
        op_events(op, author, title)[0].status == Some(TimelineStatus::Open) <==> op.status == Some(BugStatus::Open),
        op_events(op, author, title)[0].status == Some(TimelineStatus::Closed) <==> op.status != Some(BugStatus::Open),
        op.status == Some(BugStatus::Closed) ==> op_events(op, author, title)[0].status == Some(TimelineStatus::Closed),
{
}

/// Law: the events of a run of operations are those of its first
/// operation followed by those of the rest, so each status operation of a
/// pack adds its own event, reporting the status it set, in order.
pub proof fn lemma_status_change_in_timeline(ops: Seq<TimelineOp>, author: Seq<char>, title: Seq<char>)
    requires
        ops.len() > 0,
        ops[0].kind == OperationKind::SetStatus,
    ensures
        ops_timeline(ops, author, title)[0].kind == TimelineKind::StatusChanged,
        ops_timeline(ops, author, title)[0].status == Some(TimelineStatus::Open) <==> ops[0].status == Some(BugStatus::Open),
        ops_timeline(ops, author, title).drop_first() == ops_timeline(ops.drop_first(), author, title),
{
    lemma_status_events_report_the_status_set(ops[0], author, title);
    let a = op_events(ops[0], author, title);
    let r = ops_timeline(ops.drop_first(), author, title_after(ops[0], title));
    assert((a + r).drop_first() =~= r);
    assert(title_after(ops[0], title) == title);
}

/// Law: a title operation gives one `title_changed` event that reports
/// the title it replaced (the one in force before it) as the old title and
/// the title it sets as the new one, and that title is in force after it;
/// creating an issue gives one `created` event and sets the title.
pub proof fn lemma_title_events_report_both_titles(op: TimelineOp, author: Seq<char>, title: Seq<char>)
    ensures
        op.kind == OperationKind::SetTitle ==> {
            &&& op_events(op, author, title).len() == 1
            &&& op_events(op, author, title)[0].kind == TimelineKind::TitleChanged
            &&& op_events(op, author, title)[0].old_title == Some(title)
            &&& op_events(op, author, title)[0].new_title == opt_text(op.title) || (op.title is None
                && op_events(op, author, title)[0].new_title == Some(Seq::<char>::empty()))
            &&& op_events(op, author, title)[0].timestamp == op.timestamp
            &&& op_events(op, author, title)[0].author_username == author
        },
        op.kind == OperationKind::Create ==> op_events(op, author, title).len() == 1 && op_events(
            op,
            author,
            title,
        )[0].kind == TimelineKind::Created,
        op.kind == OperationKind::Create || op.kind == OperationKind::SetTitle ==> title_after(op, title) == match op.title {
            Some(t) => t@,
            None => Seq::<char>::empty(),
        },
        !(op.kind == OperationKind::Create || op.kind == OperationKind::SetTitle) ==> title_after(op, title) == title,
        op.kind == OperationKind::Other ==> op_events(op, author, title).len() == 0,
{
}

/// Law: a label operation gives one `label_added` event per added label,
/// in order, then one `label_removed` event per removed label, in order,
/// each naming its label.
pub proof fn lemma_label_events_name_each_label(op: TimelineOp, author: Seq<char>, title: Seq<char>)
    requires
        op.kind == OperationKind::LabelChange,
    ensures
        ({
            let evs = op_events(op, author, title);
            let added = match op.added {
                Some(v) => v@,
                None => Seq::<String>::empty(),
            };
            let removed = match op.removed {
                Some(v) => v@,
                None => Seq::<String>::empty(),
            };
            &&& evs.len() == added.len() + removed.len()
            &&& forall|i: int|
                0 <= i < added.len() ==> #[trigger] evs[i].kind == TimelineKind::LabelAdded && evs[i].label == Some(
                    added[i]@,
                )
            &&& forall|i: int|
                0 <= i < removed.len() ==> #[trigger] evs[added.len() + i].kind == TimelineKind::LabelRemoved
                    && evs[added.len() + i].label == Some(removed[i]@)
        }),
{
    let evs = op_events(op, author, title);
    let a = label_events(op.added, TimelineKind::LabelAdded, op.timestamp, author);
    let r = label_events(op.removed, TimelineKind::LabelRemoved, op.timestamp, author);
    assert(evs == a + r);
    let added = match op.added {
        Some(v) => v@,
        None => Seq::<String>::empty(),
    };
    assert forall|i: int| 0 <= i < added.len() implies #[trigger] evs[i].kind == TimelineKind::LabelAdded
        && evs[i].label == Some(added[i]@) by {
        assert(evs[i] == a[i]);
    }
    let removed = match op.removed {
        Some(v) => v@,
        None => Seq::<String>::empty(),
    };
    assert forall|i: int| 0 <= i < removed.len() implies #[trigger] evs[added.len() + i].kind
        == TimelineKind::LabelRemoved && evs[added.len() + i].label == Some(removed[i]@) by {
        assert(evs[added.len() + i] == r[i]);
    }
}

} // verus!

use vstd::prelude::*;

verus! {

/// The three semantic changes a subscriber is told about.
#[derive(Clone, Copy, Debug, PartialEq, Eq, Structural)]
pub enum EventKind {
    Create,
    Update,
    Delete,
}

impl EventKind {
    /// The wire name of the kind: "create", "update" or "delete".
    pub fn name(&self) -> (r: &'static str)
        ensures
            r@ == kind_name(*self),
    {
        match self {
            EventKind::Create => "create",
            EventKind::Update => "update",
            EventKind::Delete => "delete",
        }
    }
}

pub open spec fn kind_name(k: EventKind) -> Seq<char> {
    match k {
        EventKind::Create => "create"@,
        EventKind::Update => "update"@,
        EventKind::Delete => "delete"@,
    }
}

/// A semantic event: what changed, and the path it changed at.
#[derive(Clone, Debug)]
pub struct ParcelWatcherEvent {
    kind: EventKind,
    path: String,
}

/// The mathematical value of an event: its kind and its path.
pub type EventView = (EventKind, Seq<char>);

impl View for ParcelWatcherEvent {
    type V = EventView;

    closed spec fn view(&self) -> EventView {
        (self.kind, self.path@)
    }
}

impl ParcelWatcherEvent {
    pub fn new(kind: EventKind, path: String) -> (r: ParcelWatcherEvent)
        ensures
            r@ == (kind, path@),
    {
        ParcelWatcherEvent { kind, path }
    }

    pub fn kind(&self) -> (r: EventKind)
        ensures
            r == self@.0,
    {
        self.kind
    }

    /// The wire name of the event's kind.
    pub fn event_type(&self) -> (r: &'static str)
        ensures
            r@ == kind_name(self@.0),
    {
        self.kind.name()
    }

    pub fn path(&self) -> (r: &str)
        ensures
            r@ == self@.1,
    {
        self.path.as_str()
    }

    /// A copy of the event with the same kind and path.
    pub fn copy(&self) -> (r: ParcelWatcherEvent)
        ensures
            r@ == self@,
    {
        ParcelWatcherEvent { kind: self.kind, path: self.path.clone() }
    }
}

/// A debounced notification from the raw source, with its paths as text.
/// A path that is not valid Unicode is carried as `None`.
#[derive(Clone, Debug)]
pub enum RawEvent {
    Created(Option<String>),
    Written(Option<String>),
    MetadataChanged(Option<String>),
    Removed(Option<String>),
    /// A rename, already paired: the old path, then the new one.
    Renamed(Option<String>, Option<String>),
    /// Any notification that yields no semantic event.
    Ignored,
}

/// The event of `kind` at `p`, or none when the path has no text form.
pub open spec fn event_at(kind: EventKind, p: Option<String>) -> Seq<EventView> {
    match p {
        Some(s) => seq![(kind, s@)],
        None => Seq::empty(),
    }
}

/// The semantic events that one raw notification stands for.
pub open spec fn semantic_of(e: RawEvent) -> Seq<EventView> {
    match e {
        RawEvent::Created(p) => event_at(EventKind::Create, p),
        RawEvent::Written(p) => event_at(EventKind::Update, p),
        RawEvent::MetadataChanged(p) => event_at(EventKind::Update, p),
        RawEvent::Removed(p) => event_at(EventKind::Delete, p),
        RawEvent::Renamed(from, to) => event_at(EventKind::Delete, from) + event_at(
            EventKind::Create,
            to,
        ),
        RawEvent::Ignored => Seq::empty(),
    }
}

/// The semantic events of a run of raw notifications, in arrival order.
pub open spec fn semantic_seq(s: Seq<RawEvent>) -> Seq<EventView>
    decreases s.len(),
{
    if s.len() == 0 {
        Seq::empty()
    } else {
        semantic_seq(s.drop_last()) + semantic_of(s.last())
    }
}

pub open spec fn views(s: Seq<ParcelWatcherEvent>) -> Seq<EventView> {
    s.map_values(|e: ParcelWatcherEvent| e@)
}

fn push_event_at(out: &mut Vec<ParcelWatcherEvent>, kind: EventKind, p: &Option<String>)
    ensures
        views(final(out)@) == views(old(out)@) + event_at(kind, *p),
{
    match p {
        Some(s) => {
            out.push(ParcelWatcherEvent { kind, path: s.clone() });
            assert(views(final(out)@) =~= views(old(out)@) + event_at(kind, *p));
        },
        None => {
            assert(views(final(out)@) =~= views(old(out)@) + event_at(kind, *p));
        },
    }
}

/// Turns a run of raw notifications into semantic events.
///
/// Each creation gives a `Create`, each write or metadata change an `Update`,
/// each removal a `Delete`, and each rename a `Delete` of the old path followed
/// by a `Create` of the new one; paths without a text form are skipped.
pub fn semantic_events(raw: &Vec<RawEvent>) -> (r: Vec<ParcelWatcherEvent>)
    ensures
        views(r@) == semantic_seq(raw@),
{
    let mut out: Vec<ParcelWatcherEvent> = Vec::new();
    let mut i: usize = 0;
    while i < raw.len()
        invariant
            i <= raw@.len(),
            views(out@) == semantic_seq(raw@.take(i as int)),
        decreases raw@.len() - i,
    {
        proof {
            assert(raw@.take(i + 1).drop_last() =~= raw@.take(i as int));
        }
        match &raw[i] {
            RawEvent::Created(p) => push_event_at(&mut out, EventKind::Create, p),
            RawEvent::Written(p) => push_event_at(&mut out, EventKind::Update, p),
            RawEvent::MetadataChanged(p) => push_event_at(&mut out, EventKind::Update, p),
            RawEvent::Removed(p) => push_event_at(&mut out, EventKind::Delete, p),
            RawEvent::Renamed(from, to) => {
                push_event_at(&mut out, EventKind::Delete, from);
                push_event_at(&mut out, EventKind::Create, to);
            },
            RawEvent::Ignored => {
                assert(views(out@) =~= views(out@) + semantic_of(raw@[i as int]));
            },
        }
        i = i + 1;
    }
    proof {
        assert(raw@.take(raw@.len() as int) =~= raw@);
    }
    out
}

/// How many `Update` events for path `q` a run of semantic events holds.
pub open spec fn update_count(s: Seq<EventView>, q: Seq<char>) -> nat
    decreases s.len(),
{
    if s.len() == 0 {
        0
    } else {
        update_count(s.drop_last(), q) + if s.last() == (EventKind::Update, q) {
            1nat
        } else {
            0nat
        }
    }
}

/// Whether a raw notification is a write or a metadata change at path `q`.
pub open spec fn is_change_at(r: RawEvent, q: Seq<char>) -> bool {
    match r {
        RawEvent::Written(Some(p)) => p@ == q,
        RawEvent::MetadataChanged(Some(p)) => p@ == q,
        _ => false,
    }
}

/// How many writes and metadata changes at path `q` a run of raw notifications holds.
pub open spec fn change_count(s: Seq<RawEvent>, q: Seq<char>) -> nat
    decreases s.len(),
{
    if s.len() == 0 {
        0
    } else {
        change_count(s.drop_last(), q) + if is_change_at(s.last(), q) {
            1nat
        } else {
            0nat
        }
    }
}

proof fn lemma_update_count_append(a: Seq<EventView>, b: Seq<EventView>, q: Seq<char>)
    ensures
        update_count(a + b, q) == update_count(a, q) + update_count(b, q),
    decreases b.len(),
{
    if b.len() > 0 {
        assert((a + b).drop_last() =~= a + b.drop_last());
        lemma_update_count_append(a, b.drop_last(), q);
    } else {
        assert(a + b =~= a);
    }
}

proof fn lemma_update_count_at(kind: EventKind, p: Option<String>, q: Seq<char>)
    ensures
        update_count(event_at(kind, p), q) == if kind == EventKind::Update && p is Some
            && p.unwrap()@ == q {
            1nat
        } else {
            0nat
        },
{
    match p {
        Some(s) => {
            assert(event_at(kind, p).drop_last() =~= Seq::<EventView>::empty());
            assert(update_count(Seq::<EventView>::empty(), q) == 0);
        },
        None => {},
    }
}

/// Writes and metadata changes coalesce per notification: every run of raw
/// notifications yields, for each path, exactly as many `Update` events as it
/// holds writes or metadata changes at that path. A debounced source that
/// reports one change per path per settling window thus gives one `Update`.
pub proof fn lemma_one_update_per_change(s: Seq<RawEvent>, q: Seq<char>)
    ensures
        update_count(semantic_seq(s), q) == change_count(s, q),
    decreases s.len(),
{
    if s.len() > 0 {
        lemma_one_update_per_change(s.drop_last(), q);
        lemma_update_count_append(semantic_seq(s.drop_last()), semantic_of(s.last()), q);
        match s.last() {
            RawEvent::Created(p) => lemma_update_count_at(EventKind::Create, p, q),
            RawEvent::Written(p) => lemma_update_count_at(EventKind::Update, p, q),
            RawEvent::MetadataChanged(p) => lemma_update_count_at(EventKind::Update, p, q),
            RawEvent::Removed(p) => lemma_update_count_at(EventKind::Delete, p, q),
            RawEvent::Renamed(from, to) => {
                lemma_update_count_at(EventKind::Delete, from, q);
                lemma_update_count_at(EventKind::Create, to, q);
                lemma_update_count_append(
                    event_at(EventKind::Delete, from),
                    event_at(EventKind::Create, to),
                    q,
                );
            },
            RawEvent::Ignored => {},
        }
    }
}

/// A rename from `from` to `to` yields exactly a `Delete` of `from` followed
/// by a `Create` of `to`, after whatever came before it.
pub proof fn lemma_rename_is_delete_then_create(
    before: Seq<RawEvent>,
    from: String,
    to: String,
)
    ensures
        semantic_seq(before.push(RawEvent::Renamed(Some(from), Some(to)))) == semantic_seq(before)
            + seq![(EventKind::Delete, from@), (EventKind::Create, to@)],
{
    let s = before.push(RawEvent::Renamed(Some(from), Some(to)));
    assert(s.drop_last() =~= before);
    assert(semantic_of(s.last()) =~= seq![(EventKind::Delete, from@), (EventKind::Create, to@)]);
}

/// No raw activity gives no semantic event.
pub proof fn lemma_nothing_in_nothing_out()
    ensures
        semantic_seq(Seq::empty()) == Seq::<EventView>::empty(),
{
}

} // verus!

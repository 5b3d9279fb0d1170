//! Windows Desktop's native file preview cannot resolve executor paths inside
//! WSL. For that local connection, generated images are sent with their inline
//! data only: the saved path, an optional display hint, is cleared on the
//! outgoing copy. Stored history and responses to other clients keep the
//! executor's saved path.
use vstd::prelude::*;
use crate::json::RequestId;
use crate::text::str_eq;

verus! {

#[derive(Clone, Debug, PartialEq, Eq)]
pub struct ImageGenerationItem {
    pub id: String,
    pub status: String,
    pub revised_prompt: Option<String>,
    /// The generated image, base64-encoded; empty where none is held inline.
    pub result: String,
    pub transparent_background: Option<bool>,
    pub failure: Option<String>,
    pub saved_path: Option<String>,
    pub imagegen_request_id: Option<String>,
    pub generation_id: Option<String>,
}

#[derive(Clone, Debug, PartialEq, Eq)]
pub enum ThreadItem {
    UserMessage { id: String, text: String },
    AgentMessage { id: String, text: String },
    ImageGeneration(ImageGenerationItem),
}

#[derive(Clone, Debug, PartialEq, Eq)]
pub struct Turn {
    pub id: String,
    pub items: Vec<ThreadItem>,
}

#[derive(Clone, Debug, PartialEq, Eq)]
pub struct Thread {
    pub id: String,
    pub turns: Vec<Turn>,
}

#[derive(Clone, Debug, PartialEq, Eq)]
pub struct ItemStartedNotification {
    pub thread_id: String,
    pub turn_id: String,
    pub item: ThreadItem,
    pub started_at_ms: i64,
}

#[derive(Clone, Debug, PartialEq, Eq)]
pub struct ItemCompletedNotification {
    pub thread_id: String,
    pub turn_id: String,
    pub item: ThreadItem,
    pub completed_at_ms: i64,
}

#[derive(Clone, Debug, PartialEq, Eq)]
pub struct ThreadStartedNotification {
    pub thread: Thread,
}

#[derive(Clone, Debug, PartialEq, Eq)]
pub struct TurnNotification {
    pub thread_id: String,
    pub turn: Turn,
}

#[derive(Clone, Debug, PartialEq, Eq)]
pub enum ServerNotification {
    ItemStarted(ItemStartedNotification),
    ItemCompleted(ItemCompletedNotification),
    ThreadStarted(ThreadStartedNotification),
    TurnStarted(TurnNotification),
    TurnCompleted(TurnNotification),
    Other { method: String },
}

#[derive(Clone, Debug, PartialEq, Eq)]
pub struct ServerNotificationEnvelope {
    pub notification: ServerNotification,
    pub emitted_at_ms: Option<i64>,
}

#[derive(Clone, Debug, PartialEq, Eq)]
pub struct ThreadResponse {
    pub thread: Thread,
}

#[derive(Clone, Debug, PartialEq, Eq)]
pub struct ThreadTurnsListResponse {
    pub data: Vec<Turn>,
    pub next_cursor: Option<String>,
}

#[derive(Clone, Debug, PartialEq, Eq)]
pub struct ThreadItemEntry {
    pub turn_id: String,
    pub item: ThreadItem,
}

#[derive(Clone, Debug, PartialEq, Eq)]
pub struct ThreadItemsListResponse {
    pub data: Vec<ThreadItemEntry>,
    pub next_cursor: Option<String>,
    pub backwards_cursor: Option<String>,
}

#[derive(Clone, Debug, PartialEq, Eq)]
pub enum ThreadTimelineEntry {
    Item { turn_id: String, item: ThreadItem },
    TurnBoundary { turn_id: String },
}

#[derive(Clone, Debug, PartialEq, Eq)]
pub struct ThreadTimelineListResponse {
    pub data: Vec<ThreadTimelineEntry>,
    pub next_cursor: Option<String>,
}

#[derive(Clone, Debug, PartialEq, Eq)]
pub enum ClientResponsePayload {
    ThreadStart(ThreadResponse),
    ThreadResume(ThreadResponse),
    ThreadFork(ThreadResponse),
    ThreadRead(ThreadResponse),
    ThreadUnarchive(ThreadResponse),
    ThreadRevert(ThreadResponse),
    ThreadTurnsList(ThreadTurnsListResponse),
    ThreadItemsList(ThreadItemsListResponse),
    ThreadTimelineList(ThreadTimelineListResponse),
    Other { method: String },
}

#[derive(Clone, Debug, PartialEq, Eq)]
pub struct OutgoingResponse {
    pub id: RequestId,
    pub result: Box<ClientResponsePayload>,
}

#[derive(Clone, Debug, PartialEq, Eq)]
pub struct OutgoingRequest {
    pub id: RequestId,
    pub method: String,
}

#[derive(Clone, Debug, PartialEq, Eq)]
pub struct OutgoingError {
    pub id: RequestId,
    pub code: i64,
    pub message: String,
}

/// A message on its way to a client.
#[derive(Clone, Debug, PartialEq, Eq)]
pub enum OutgoingMessage {
    AppServerNotification(ServerNotificationEnvelope),
    Response(OutgoingResponse),
    Request(OutgoingRequest),
    Error(OutgoingError),
}

#[derive(Clone, Copy, Debug, PartialEq, Eq, Structural)]
pub enum ConnectionOrigin {
    Stdio,
    InProcess,
    WebSocket,
}

/// What the server knows of a connection.
#[derive(Clone, Debug, PartialEq, Eq)]
pub struct ConnectionSessionState {
    pub origin: ConnectionOrigin,
    pub client_name: Option<String>,
}

impl ConnectionSessionState {
    /// A connection that has not been initialized yet.
    pub fn new(origin: ConnectionOrigin) -> (r: Self)
        ensures
            r.origin == origin,
            r.client_name() is None,
    {
        ConnectionSessionState { origin, client_name: None }
    }

    pub open spec fn client_name(&self) -> Option<Seq<char>> {
        match self.client_name {
            Some(n) => Some(n@),
            None => None,
        }
    }

    /// Records the client name given when the connection was initialized.
    pub fn initialize(&mut self, name: String)
        ensures
            final(self).origin == old(self).origin,
            final(self).client_name() == Some(name@),
    {
        self.client_name = Some(name);
    }

    /// The client name given when the connection was initialized.
    pub fn app_server_client_name(&self) -> (r: Option<&str>)
        ensures
            match r {
                Some(n) => self.client_name() == Some(n@),
                None => self.client_name() is None,
            },
    {
        match &self.client_name {
            Some(n) => Some(n.as_str()),
            None => None,
        }
    }
}

// ---------------------------------------------------------------------------
// Specifications
// ---------------------------------------------------------------------------
/// Inline images are preferred only for Codex Desktop on a local stdio
/// connection in a named WSL distribution.
pub open spec fn inline_images_wanted(
    origin: ConnectionOrigin,
    client_name: Option<Seq<char>>,
    distribution: Option<Seq<char>>,
) -> bool {
    &&& origin == ConnectionOrigin::Stdio
    &&& client_name == Some("Codex Desktop"@)
    &&& distribution is Some
    &&& distribution->0.len() > 0
}

/// A generated image with inline data loses its saved path; every other item
/// is kept.
pub open spec fn inline_item(item: ThreadItem) -> ThreadItem {
    match item {
        ThreadItem::ImageGeneration(image) => if image.result@.len() > 0 {
            ThreadItem::ImageGeneration(ImageGenerationItem { saved_path: None, ..image })
        } else {
            item
        },
        _ => item,
    }
}

pub open spec fn items_inlined(old: Seq<ThreadItem>, new: Seq<ThreadItem>) -> bool {
    new == old.map_values(|i: ThreadItem| inline_item(i))
}

pub open spec fn turn_inlined(old: Turn, new: Turn) -> bool {
    new.id == old.id && items_inlined(old.items@, new.items@)
}

pub open spec fn turns_inlined(old: Seq<Turn>, new: Seq<Turn>) -> bool {
    &&& new.len() == old.len()
    &&& forall|i: int| 0 <= i < old.len() ==> turn_inlined(old[i], #[trigger] new[i])
}

pub open spec fn thread_inlined(old: Thread, new: Thread) -> bool {
    new.id == old.id && turns_inlined(old.turns@, new.turns@)
}

pub open spec fn inline_entry(e: ThreadItemEntry) -> ThreadItemEntry {
    ThreadItemEntry { turn_id: e.turn_id, item: inline_item(e.item) }
}

pub open spec fn inline_timeline_entry(e: ThreadTimelineEntry) -> ThreadTimelineEntry {
    match e {
        ThreadTimelineEntry::Item { turn_id, item } => ThreadTimelineEntry::Item {
            turn_id,
            item: inline_item(item),
        },
        _ => e,
    }
}

pub open spec fn notification_inlined(old: ServerNotification, new: ServerNotification) -> bool {
    match old {
        ServerNotification::ItemStarted(n) => new == ServerNotification::ItemStarted(
            ItemStartedNotification { item: inline_item(n.item), ..n },
        ),
        ServerNotification::ItemCompleted(n) => new == ServerNotification::ItemCompleted(
            ItemCompletedNotification { item: inline_item(n.item), ..n },
        ),
        ServerNotification::ThreadStarted(n) => new is ThreadStarted && thread_inlined(
            n.thread,
            new->ThreadStarted_0.thread,
        ),
        ServerNotification::TurnStarted(n) => new is TurnStarted && new->TurnStarted_0.thread_id
            == n.thread_id && turn_inlined(n.turn, new->TurnStarted_0.turn),
        ServerNotification::TurnCompleted(n) => new is TurnCompleted
            && new->TurnCompleted_0.thread_id == n.thread_id && turn_inlined(
            n.turn,
            new->TurnCompleted_0.turn,
        ),
        ServerNotification::Other { .. } => new == old,
    }
}

pub open spec fn payload_inlined(old: ClientResponsePayload, new: ClientResponsePayload) -> bool {
    match old {
        ClientResponsePayload::ThreadTurnsList(r) => new is ThreadTurnsList
            && new->ThreadTurnsList_0.next_cursor == r.next_cursor && turns_inlined(
            r.data@,
            new->ThreadTurnsList_0.data@,
        ),
        ClientResponsePayload::ThreadItemsList(r) => new is ThreadItemsList
            && new->ThreadItemsList_0.next_cursor == r.next_cursor
            && new->ThreadItemsList_0.backwards_cursor == r.backwards_cursor
            && new->ThreadItemsList_0.data@ == r.data@.map_values(
            |e: ThreadItemEntry| inline_entry(e),
        ),
        ClientResponsePayload::ThreadTimelineList(r) => new is ThreadTimelineList
            && new->ThreadTimelineList_0.next_cursor == r.next_cursor
            && new->ThreadTimelineList_0.data@ == r.data@.map_values(
            |e: ThreadTimelineEntry| inline_timeline_entry(e),
        ),
        ClientResponsePayload::ThreadStart(r) => new is ThreadStart && thread_inlined(
            r.thread,
            new->ThreadStart_0.thread,
        ),
        ClientResponsePayload::ThreadResume(r) => new is ThreadResume && thread_inlined(
            r.thread,
            new->ThreadResume_0.thread,
        ),
        ClientResponsePayload::ThreadFork(r) => new is ThreadFork && thread_inlined(
            r.thread,
            new->ThreadFork_0.thread,
        ),
        ClientResponsePayload::ThreadRead(r) => new is ThreadRead && thread_inlined(
            r.thread,
            new->ThreadRead_0.thread,
        ),
        ClientResponsePayload::ThreadUnarchive(r) => new is ThreadUnarchive && thread_inlined(
            r.thread,
            new->ThreadUnarchive_0.thread,
        ),
        ClientResponsePayload::ThreadRevert(r) => new is ThreadRevert && thread_inlined(
            r.thread,
            new->ThreadRevert_0.thread,
        ),
        ClientResponsePayload::Other { .. } => new == old,
    }
}

/// `new` is `old` with every generated image that has inline data stripped of
/// its saved path, wherever a notification or a response carries items.
pub open spec fn message_inlined(old: OutgoingMessage, new: OutgoingMessage) -> bool {
    match old {
        OutgoingMessage::AppServerNotification(envelope) => new is AppServerNotification
            && new->AppServerNotification_0.emitted_at_ms == envelope.emitted_at_ms
            && notification_inlined(
            envelope.notification,
            new->AppServerNotification_0.notification,
        ),
        OutgoingMessage::Response(response) => new is Response && new->Response_0.id
            == response.id && payload_inlined(*response.result, *new->Response_0.result),
        _ => new == old,
    }
}

/// Preparing an item twice is preparing it once.
pub proof fn lemma_inline_item_idempotent(item: ThreadItem)
    ensures
        inline_item(inline_item(item)) == inline_item(item),
{
}

/// Preparing an item changes at most the saved path of a generated image,
/// clears it exactly when the image holds inline data, and never touches an
/// image without inline data (whose saved path is its only source).
pub proof fn lemma_inline_item_changes_only_saved_path(item: ThreadItem)
    ensures
        match (item, inline_item(item)) {
            (ThreadItem::ImageGeneration(a), ThreadItem::ImageGeneration(b)) => {
                &&& b == ImageGenerationItem { saved_path: b.saved_path, ..a }
                &&& a.result@.len() == 0 ==> b == a
                &&& a.result@.len() > 0 ==> b.saved_path is None
            },
            (ThreadItem::ImageGeneration(_), _) => false,
            (x, y) => y == x,
        },
{
}

proof fn lemma_items_twice(x: Seq<ThreadItem>, y: Seq<ThreadItem>, z: Seq<ThreadItem>)
    requires
        items_inlined(x, y),
        items_inlined(y, z),
    ensures
        items_inlined(x, z),
{
    assert forall|i: int| 0 <= i < x.len() implies z[i] == inline_item(x[i]) by {
        lemma_inline_item_idempotent(x[i]);
    }
    assert(z =~= x.map_values(|i: ThreadItem| inline_item(i)));
}

proof fn lemma_turns_twice(x: Seq<Turn>, y: Seq<Turn>, z: Seq<Turn>)
    requires
        turns_inlined(x, y),
        turns_inlined(y, z),
    ensures
        turns_inlined(x, z),
{
    assert forall|i: int| 0 <= i < x.len() implies turn_inlined(x[i], #[trigger] z[i]) by {
        assert(turn_inlined(x[i], y[i]));
        assert(turn_inlined(y[i], z[i]));
        lemma_items_twice(x[i].items@, y[i].items@, z[i].items@);
    }
}

proof fn lemma_thread_twice(x: Thread, y: Thread, z: Thread)
    requires
        thread_inlined(x, y),
        thread_inlined(y, z),
    ensures
        thread_inlined(x, z),
{
    lemma_turns_twice(x.turns@, y.turns@, z.turns@);
}

/// The thread a response carries, for the responses that carry one.
pub open spec fn response_thread(p: ClientResponsePayload) -> Option<Thread> {
    match p {
        ClientResponsePayload::ThreadStart(r) => Some(r.thread),
        ClientResponsePayload::ThreadResume(r) => Some(r.thread),
        ClientResponsePayload::ThreadFork(r) => Some(r.thread),
        ClientResponsePayload::ThreadRead(r) => Some(r.thread),
        ClientResponsePayload::ThreadUnarchive(r) => Some(r.thread),
        ClientResponsePayload::ThreadRevert(r) => Some(r.thread),
        _ => None,
    }
}

/// Every response that carries a thread (start, resume, fork, read,
/// unarchive, revert) keeps its kind, its thread id and the shape of its
/// turns, and in the prepared thread no generated image with inline data
/// keeps its saved path; every other item, and every field of an image but
/// that saved path, is as it was.
pub proof fn lemma_thread_responses_drop_saved_paths(
    old: ClientResponsePayload,
    new: ClientResponsePayload,
)
    requires
        payload_inlined(old, new),
        response_thread(old) is Some,
    ensures
        old is ThreadStart ==> new is ThreadStart,
        old is ThreadResume ==> new is ThreadResume,
        old is ThreadFork ==> new is ThreadFork,
        old is ThreadRead ==> new is ThreadRead,
        old is ThreadUnarchive ==> new is ThreadUnarchive,
        old is ThreadRevert ==> new is ThreadRevert,
        response_thread(new) is Some,
        ({
            let a = response_thread(old)->0;
            let b = response_thread(new)->0;
            &&& b.id == a.id
            &&& b.turns@.len() == a.turns@.len()
            &&& forall|t: int|
                0 <= t < a.turns@.len() ==> (#[trigger] b.turns@[t]).id == a.turns@[t].id
                    && b.turns@[t].items@.len() == a.turns@[t].items@.len()
            &&& forall|t: int, i: int|
                0 <= t < a.turns@.len() && 0 <= i < a.turns@[t].items@.len() ==> match (
                    a.turns@[t].items@[i],
                    #[trigger] b.turns@[t].items@[i],
                ) {
                    (ThreadItem::ImageGeneration(x), ThreadItem::ImageGeneration(y)) => y
                        == ImageGenerationItem {
                        saved_path: if x.result@.len() > 0 {
                            None
                        } else {
                            x.saved_path
                        },
                        ..x
                    },
                    (ThreadItem::ImageGeneration(_), _) => false,
                    (x, y) => y == x,
                }
        }),
{
    let a = response_thread(old)->0;
    let b = response_thread(new)->0;
    assert(thread_inlined(a, b));
    assert forall|t: int, i: int|
        0 <= t < a.turns@.len() && 0 <= i < a.turns@[t].items@.len() implies match (
            a.turns@[t].items@[i],
            #[trigger] b.turns@[t].items@[i],
        ) {
            (ThreadItem::ImageGeneration(x), ThreadItem::ImageGeneration(y)) => y
                == ImageGenerationItem {
                saved_path: if x.result@.len() > 0 {
                    None
                } else {
                    x.saved_path
                },
                ..x
            },
            (ThreadItem::ImageGeneration(_), _) => false,
            (x, y) => y == x,
        } by {
        assert(turn_inlined(a.turns@[t], b.turns@[t]));
        assert(b.turns@[t].items@[i] == inline_item(a.turns@[t].items@[i]));
    }
}

/// Preparing a message twice is preparing it once: what the second pass
/// gives is a result of preparing the original message once.
pub proof fn lemma_prefer_inline_images_idempotent(
    a: OutgoingMessage,
    b: OutgoingMessage,
    c: OutgoingMessage,
)
    requires
        message_inlined(a, b),
        message_inlined(b, c),
    ensures
        message_inlined(a, c),
{
    match a {
        OutgoingMessage::AppServerNotification(envelope) => {
            let nb = b->AppServerNotification_0.notification;
            let nc = c->AppServerNotification_0.notification;
            match envelope.notification {
                ServerNotification::ItemStarted(n) => {
                    lemma_inline_item_idempotent(n.item);
                    assert(nc == nb);
                },
                ServerNotification::ItemCompleted(n) => {
                    lemma_inline_item_idempotent(n.item);
                    assert(nc == nb);
                },
                ServerNotification::ThreadStarted(n) => {
                    lemma_thread_twice(
                        n.thread,
                        nb->ThreadStarted_0.thread,
                        nc->ThreadStarted_0.thread,
                    );
                },
                ServerNotification::TurnStarted(n) => {
                    lemma_items_twice(
                        n.turn.items@,
                        nb->TurnStarted_0.turn.items@,
                        nc->TurnStarted_0.turn.items@,
                    );
                },
                ServerNotification::TurnCompleted(n) => {
                    lemma_items_twice(
                        n.turn.items@,
                        nb->TurnCompleted_0.turn.items@,
                        nc->TurnCompleted_0.turn.items@,
                    );
                },
                ServerNotification::Other { .. } => {},
            }
        },
        OutgoingMessage::Response(response) => {
            let pb = *b->Response_0.result;
            let pc = *c->Response_0.result;
            match *response.result {
                ClientResponsePayload::ThreadStart(r) => lemma_thread_twice(
                    r.thread,
                    pb->ThreadStart_0.thread,
                    pc->ThreadStart_0.thread,
                ),
                ClientResponsePayload::ThreadResume(r) => lemma_thread_twice(
                    r.thread,
                    pb->ThreadResume_0.thread,
                    pc->ThreadResume_0.thread,
                ),
                ClientResponsePayload::ThreadFork(r) => lemma_thread_twice(
                    r.thread,
                    pb->ThreadFork_0.thread,
                    pc->ThreadFork_0.thread,
                ),
                ClientResponsePayload::ThreadRead(r) => lemma_thread_twice(
                    r.thread,
                    pb->ThreadRead_0.thread,
                    pc->ThreadRead_0.thread,
                ),
                ClientResponsePayload::ThreadUnarchive(r) => lemma_thread_twice(
                    r.thread,
                    pb->ThreadUnarchive_0.thread,
                    pc->ThreadUnarchive_0.thread,
                ),
                ClientResponsePayload::ThreadRevert(r) => lemma_thread_twice(
                    r.thread,
                    pb->ThreadRevert_0.thread,
                    pc->ThreadRevert_0.thread,
                ),
                ClientResponsePayload::ThreadTurnsList(r) => lemma_turns_twice(
                    r.data@,
                    pb->ThreadTurnsList_0.data@,
                    pc->ThreadTurnsList_0.data@,
                ),
                ClientResponsePayload::ThreadItemsList(r) => {
                    let x = r.data@;
                    let z = pc->ThreadItemsList_0.data@;
                    assert forall|i: int| 0 <= i < x.len() implies z[i] == inline_entry(x[i]) by {
                        lemma_inline_item_idempotent(x[i].item);
                    }
                    assert(z =~= x.map_values(|e: ThreadItemEntry| inline_entry(e)));
                },
                ClientResponsePayload::ThreadTimelineList(r) => {
                    let x = r.data@;
                    let z = pc->ThreadTimelineList_0.data@;
                    assert forall|i: int| 0 <= i < x.len() implies z[i] == inline_timeline_entry(
                        x[i],
                    ) by {
                        if x[i] is Item {
                            lemma_inline_item_idempotent(x[i]->item);
                        }
                    }
                    assert(z =~= x.map_values(|e: ThreadTimelineEntry| inline_timeline_entry(e)));
                },
                ClientResponsePayload::Other { .. } => {},
            }
        },
        _ => {},
    }
}

// ---------------------------------------------------------------------------
// Executable functions
// ---------------------------------------------------------------------------
/// Whether this connection wants inline images: Codex Desktop on a local
/// stdio connection in a named WSL distribution.
pub fn uses_inline_images(
    origin: ConnectionOrigin,
    client_name: Option<&str>,
    distribution: Option<&str>,
) -> (r: bool)
    ensures
        r == inline_images_wanted(
            origin,
            match client_name {
                Some(n) => Some(n@),
                None => None,
            },
            match distribution {
                Some(d) => Some(d@),
                None => None,
            },
        ),
{
    let desktop = match client_name {
        Some(name) => str_eq(name, "Codex Desktop"),
        None => false,
    };
    let named = match distribution {
        Some(d) => !d.is_empty(),
        None => false,
    };
    origin == ConnectionOrigin::Stdio && desktop && named
}

fn prepare_item(item: &mut ThreadItem)
    ensures
        *final(item) == inline_item(*old(item)),
{
    match item {
        ThreadItem::ImageGeneration(image) => {
            if !image.result.as_str().is_empty() {
                image.saved_path = None;
            }
        },
        _ => {},
    }
}

fn prepare_items(items: &mut Vec<ThreadItem>)
    ensures
        items_inlined(old(items)@, final(items)@),
{
    let ghost start = items@;
    let n = items.len();
    let mut i: usize = 0;
    while i < n
        invariant
            i <= n == items@.len() == start.len(),
            start == old(items)@,
            forall|k: int| 0 <= k < i ==> #[trigger] items@[k] == inline_item(start[k]),
            forall|k: int| i <= k < n ==> #[trigger] items@[k] == start[k],
        decreases n - i,
    {
        prepare_item(&mut items[i]);
        i = i + 1;
    }
    assert(items@ =~= start.map_values(|x: ThreadItem| inline_item(x)));
}

fn prepare_turns(turns: &mut Vec<Turn>)
    ensures
        turns_inlined(old(turns)@, final(turns)@),
{
    let ghost start = turns@;
    let n = turns.len();
    let mut i: usize = 0;
    while i < n
        invariant
            i <= n == turns@.len() == start.len(),
            start == old(turns)@,
            forall|k: int| 0 <= k < i ==> turn_inlined(start[k], #[trigger] turns@[k]),
            forall|k: int| i <= k < n ==> #[trigger] turns@[k] == start[k],
        decreases n - i,
    {
        prepare_items(&mut turns[i].items);
        i = i + 1;
    }
}

fn prepare_thread(thread: &mut Thread)
    ensures
        thread_inlined(*old(thread), *final(thread)),
{
    prepare_turns(&mut thread.turns);
}

fn prepare_entries(entries: &mut Vec<ThreadItemEntry>)
    ensures
        final(entries)@ == old(entries)@.map_values(|e: ThreadItemEntry| inline_entry(e)),
{
    let ghost start = entries@;
    let n = entries.len();
    let mut i: usize = 0;
    while i < n
        invariant
            i <= n == entries@.len() == start.len(),
            start == old(entries)@,
            forall|k: int| 0 <= k < i ==> #[trigger] entries@[k] == inline_entry(start[k]),
            forall|k: int| i <= k < n ==> #[trigger] entries@[k] == start[k],
        decreases n - i,
    {
        prepare_item(&mut entries[i].item);
        i = i + 1;
    }
    assert(entries@ =~= start.map_values(|e: ThreadItemEntry| inline_entry(e)));
}

fn prepare_timeline(entries: &mut Vec<ThreadTimelineEntry>)
    ensures
        final(entries)@ == old(entries)@.map_values(
            |e: ThreadTimelineEntry| inline_timeline_entry(e),
        ),
{
    let ghost start = entries@;
    let n = entries.len();
    let mut i: usize = 0;
    while i < n
        invariant
            i <= n == entries@.len() == start.len(),
            start == old(entries)@,
            forall|k: int| 0 <= k < i ==> #[trigger] entries@[k] == inline_timeline_entry(start[k]),
            forall|k: int| i <= k < n ==> #[trigger] entries@[k] == start[k],
        decreases n - i,
    {
        match &mut entries[i] {
            ThreadTimelineEntry::Item { item, .. } => prepare_item(item),
            _ => {},
        }
        i = i + 1;
    }
    assert(entries@ =~= start.map_values(|e: ThreadTimelineEntry| inline_timeline_entry(e)));
}

fn prepare_payload(payload: &mut ClientResponsePayload)
    ensures
        payload_inlined(*old(payload), *final(payload)),
{
    match payload {
        ClientResponsePayload::ThreadStart(r) => prepare_thread(&mut r.thread),
        ClientResponsePayload::ThreadResume(r) => prepare_thread(&mut r.thread),
        ClientResponsePayload::ThreadFork(r) => prepare_thread(&mut r.thread),
        ClientResponsePayload::ThreadRead(r) => prepare_thread(&mut r.thread),
        ClientResponsePayload::ThreadUnarchive(r) => prepare_thread(&mut r.thread),
        ClientResponsePayload::ThreadRevert(r) => prepare_thread(&mut r.thread),
        ClientResponsePayload::ThreadTurnsList(r) => prepare_turns(&mut r.data),
        ClientResponsePayload::ThreadItemsList(r) => prepare_entries(&mut r.data),
        ClientResponsePayload::ThreadTimelineList(r) => prepare_timeline(&mut r.data),
        ClientResponsePayload::Other { .. } => {},
    }
}

/// Strips the saved path from every generated image with inline data that a
/// notification or response carries; every other part of the message is kept.
pub fn prefer_inline_images(message: &mut OutgoingMessage)
    ensures
        message_inlined(*old(message), *final(message)),
{
    match message {
        OutgoingMessage::AppServerNotification(envelope) => match &mut envelope.notification {
            ServerNotification::ItemStarted(notification) => prepare_item(&mut notification.item),
            ServerNotification::ItemCompleted(notification) => prepare_item(
                &mut notification.item,
            ),
            ServerNotification::ThreadStarted(notification) => prepare_thread(
                &mut notification.thread,
            ),
            ServerNotification::TurnStarted(notification) => prepare_items(
                &mut notification.turn.items,
            ),
            ServerNotification::TurnCompleted(notification) => prepare_items(
                &mut notification.turn.items,
            ),
            ServerNotification::Other { .. } => {},
        },
        OutgoingMessage::Response(response) => prepare_payload(&mut *response.result),
        OutgoingMessage::Request(_) | OutgoingMessage::Error(_) => {},
    }
}

/// Prepares a message for a connection: inline images are preferred where the
/// connection wants them (see [`uses_inline_images`]); otherwise the message
/// is kept. `distribution` is the WSL distribution the server runs in.
pub fn prepare_generated_images(
    message: &mut OutgoingMessage,
    session: &ConnectionSessionState,
    distribution: Option<&str>,
)
    ensures
        inline_images_wanted(
            session.origin,
            session.client_name(),
            match distribution {
                Some(d) => Some(d@),
                None => None,
            },
        ) ==> message_inlined(*old(message), *final(message)),
        !inline_images_wanted(
            session.origin,
            session.client_name(),
            match distribution {
                Some(d) => Some(d@),
                None => None,
            },
        ) ==> *final(message) == *old(message),
{
    if !uses_inline_images(session.origin, session.app_server_client_name(), distribution) {
        return;
    }
    prefer_inline_images(message);
}

} // verus!

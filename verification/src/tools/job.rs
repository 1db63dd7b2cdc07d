use vstd::prelude::*;
use vstd::utf8::{decode_utf8, encode_utf8, valid_utf8};
use crate::seqs::{first_match, lemma_first_match, lemma_first_match_facts};
use crate::text::same_text;
use crate::update::signature::utf8_text;

verus! {

broadcast use vstd::utf8::group_utf8_lib;

/// Identifies a tool job and the document generation and tool source it was started for.
#[derive(Debug, Clone, Copy, PartialEq, Eq, Structural)]
pub struct ToolJobKey {
    pub id: u64,
    pub generation: u64,
    pub source_token: u64,
}

impl ToolJobKey {
    pub fn new(id: u64, generation: u64, source_token: u64) -> (r: Self)
        ensures
            r == (ToolJobKey { id, generation, source_token }),
    {
        ToolJobKey { id, generation, source_token }
    }

    /// A job still counts only for the generation and the tool source it was started for.
    pub fn is_current(self, generation: u64, source_token: u64) -> (r: bool)
        ensures
            r == (self.generation == generation && self.source_token == source_token),
    {
        self.generation == generation && self.source_token == source_token
    }
}

/// A document password, held as its UTF-8 bytes so that it can be wiped.
pub struct SecretPassword {
    bytes: Vec<u8>,
}

impl View for SecretPassword {
    type V = Seq<u8>;

    closed spec fn view(&self) -> Seq<u8> {
        self.bytes@
    }
}

/// All bytes are zero.
pub open spec fn wiped(bytes: Seq<u8>) -> bool {
    forall|i: int| 0 <= i < bytes.len() ==> #[trigger] bytes[i] == 0
}

/// The text a password's bytes read as; bytes that are no UTF-8 read as nothing.
pub open spec fn exposed_text(bytes: Seq<u8>) -> Seq<char> {
    if valid_utf8(bytes) {
        decode_utf8(bytes)
    } else {
        Seq::empty()
    }
}

/// Calls `String::into_bytes`: the string's own buffer, its UTF-8 bytes, taken over
/// without a copy.
#[verifier::external_body]
fn string_into_bytes(s: String) -> (r: Vec<u8>)
    ensures
        r@ == encode_utf8(s@),
{
    s.into_bytes()
}

/// Overwrites every byte with zero.
pub fn zeroize(bytes: &mut Vec<u8>)
    ensures
        final(bytes)@.len() == old(bytes)@.len(),
        wiped(final(bytes)@),
{
    let mut i: usize = 0;
    while i < bytes.len()
        invariant
            i <= bytes.len() == old(bytes)@.len(),
            forall|k: int| 0 <= k < i ==> #[trigger] bytes@[k] == 0,
        decreases bytes.len() - i,
    {
        bytes.set(i, 0);
        i += 1;
    }
}

impl SecretPassword {
    pub fn new(password: String) -> (r: Self)
        ensures
            r@ == encode_utf8(password@),
    {
        SecretPassword { bytes: string_into_bytes(password) }
    }

    /// The password as text.
    pub fn expose(&self) -> (r: &str)
        ensures
            r@ == exposed_text(self@),
    {
        match utf8_text(self.bytes.as_slice()) {
            Some(s) => s,
            None => {
                proof {
                    reveal_strlit("");
                }
                ""
            },
        }
    }

    /// Wipes the password.
    pub fn clear(&mut self)
        ensures
            final(self)@.len() == old(self)@.len(),
            wiped(final(self)@),
    {
        zeroize(&mut self.bytes);
    }

    pub fn bytes_for_test(&self) -> (r: &[u8])
        ensures
            r@ == self@,
    {
        self.bytes.as_slice()
    }

    /// What a log shows of a password, whatever it is.
    pub fn redacted_debug(&self) -> (r: &'static str)
        ensures
            r@ == "SecretPassword([REDACTED])"@,
    {
        "SecretPassword([REDACTED])"
    }
}

/// A password kept as a password reads back as the text it was made from.
pub proof fn lemma_password_round_trip(password: Seq<char>)
    ensures
        exposed_text(encode_utf8(password)) == password,
{
}

/// A password is taken only when its UTF-8 form is at most `max_bytes` bytes long.
pub fn password_fits(password: &str, max_bytes: usize) -> (r: bool)
    ensures
        r == (encode_utf8(password@).len() <= max_bytes),
{
    password.as_bytes().len() <= max_bytes
}

/// Wipes the buffer of a password that no job will use, before it is freed.
pub fn clear_rejected_password(password: String) {
    let mut bytes = string_into_bytes(password);
    zeroize(&mut bytes);
}

/// A tool job as the worker runs it: its key, what to do, and the passwords given for its
/// sources.
pub struct ToolRequest<Op> {
    pub key: ToolJobKey,
    pub operation: Op,
    pub passwords: Vec<(String, SecretPassword)>,
}

/// The given passwords, by source path, in the order they were first given.
pub open spec fn entry_view(e: (String, SecretPassword)) -> (Seq<char>, Seq<u8>) {
    (e.0@, e.1@)
}

pub open spec fn for_source(source: Seq<char>) -> spec_fn((Seq<char>, Seq<u8>)) -> bool {
    |e: (Seq<char>, Seq<u8>)| e.0 == source
}

/// The entry holding the password of `source`, or -1.
pub open spec fn password_entry(ps: Seq<(Seq<char>, Seq<u8>)>, source: Seq<char>) -> int {
    first_match(ps, for_source(source))
}

/// The bytes of the password given for `source`, if one was.
pub open spec fn password_bytes(ps: Seq<(Seq<char>, Seq<u8>)>, source: Seq<char>) -> Option<Seq<u8>> {
    let i = password_entry(ps, source);
    if 0 <= i < ps.len() {
        Some(ps[i].1)
    } else {
        None
    }
}

/// Giving `password` for `source`: the entry of that source is replaced, or one is added.
pub open spec fn with_password(ps: Seq<(Seq<char>, Seq<u8>)>, source: Seq<char>, password: Seq<
    u8,
>) -> Seq<(Seq<char>, Seq<u8>)> {
    let i = password_entry(ps, source);
    if 0 <= i < ps.len() {
        ps.update(i, (source, password))
    } else {
        ps.push((source, password))
    }
}

impl<Op> ToolRequest<Op> {
    pub closed spec fn passwords(&self) -> Seq<(Seq<char>, Seq<u8>)> {
        self.passwords@.map_values(|e: (String, SecretPassword)| entry_view(e))
    }

    pub fn new(key: ToolJobKey, operation: Op) -> (r: Self)
        ensures
            r.key == key,
            r.operation == operation,
            r.passwords() == Seq::<(Seq<char>, Seq<u8>)>::empty(),
    {
        let r = ToolRequest { key, operation, passwords: Vec::new() };
        assert(r.passwords() =~= Seq::<(Seq<char>, Seq<u8>)>::empty());
        r
    }

    fn find_entry(&self, source: &str) -> (r: Option<usize>)
        ensures
            match r {
                Some(i) => i < self.passwords@.len() && i == password_entry(self.passwords(), source@),
                None => password_entry(self.passwords(), source@) == -1,
            },
    {
        let ghost ps = self.passwords();
        let mut i: usize = 0;
        while i < self.passwords.len()
            invariant
                i <= self.passwords.len(),
                ps == self.passwords(),
                ps.len() == self.passwords@.len(),
                forall|k: int| 0 <= k < i ==> !for_source(source@)(#[trigger] ps[k]),
            decreases self.passwords.len() - i,
        {
            assert(ps[i as int] == entry_view(self.passwords@[i as int]));
            if same_text(self.passwords[i].0.as_str(), source) {
                proof {
                    lemma_first_match(ps, for_source(source@), i as int);
                }
                return Some(i);
            }
            i += 1;
        }
        proof {
            lemma_first_match(ps, for_source(source@), i as int);
        }
        None
    }

    /// The password given for `source`, as text.
    pub fn password_for(&self, source: &str) -> (r: Option<&str>)
        ensures
            match password_bytes(self.passwords(), source@) {
                None => r is None,
                Some(b) => r matches Some(s) && s@ == exposed_text(b),
            },
    {
        match self.find_entry(source) {
            Some(i) => {
                assert(self.passwords()[i as int] == entry_view(self.passwords@[i as int]));
                Some(self.passwords[i].1.expose())
            },
            None => None,
        }
    }

    /// Gives (or gives again) the password of `source`; a replaced password is wiped.
    pub fn replace_password(&mut self, source: String, password: String)
        ensures
            final(self).key == old(self).key,
            final(self).operation == old(self).operation,
            final(self).passwords() == with_password(
                old(self).passwords(),
                source@,
                encode_utf8(password@),
            ),
    {
        let ghost ps = self.passwords();
        let secret = SecretPassword::new(password);
        match self.find_entry(source.as_str()) {
            Some(i) => {
                let mut old_entry = self.passwords.remove(i);
                old_entry.1.clear();
                self.passwords.insert(i, (source, secret));
                assert(self.passwords() =~= ps.update(i as int, (source@, encode_utf8(password@))));
            },
            None => {
                self.passwords.push((source, secret));
                assert(self.passwords() =~= ps.push((source@, encode_utf8(password@))));
            },
        }
    }
}

/// After a password is given for a source, asking for that source's password gives it.
pub proof fn lemma_given_password_is_found(
    ps: Seq<(Seq<char>, Seq<u8>)>,
    source: Seq<char>,
    password: Seq<char>,
)
    ensures
        password_bytes(with_password(ps, source, encode_utf8(password)), source) == Some(
            encode_utf8(password),
        ),
        exposed_text(encode_utf8(password)) == password,
{
    let f = for_source(source);
    let b = encode_utf8(password);
    lemma_first_match_facts(ps, f);
    let i = password_entry(ps, source);
    let next = with_password(ps, source, b);
    if 0 <= i < ps.len() {
        assert forall|k: int| 0 <= k < i implies !f(#[trigger] next[k]) by {
            assert(next[k] == ps[k]);
        }
        lemma_first_match(next, f, i);
    } else {
        assert forall|k: int| 0 <= k < ps.len() implies !f(#[trigger] next[k]) by {
            assert(next[k] == ps[k]);
        }
        lemma_first_match(next, f, ps.len() as int);
    }
}

/// Giving a password for one source leaves the password of every other source as it was.
pub proof fn lemma_other_passwords_unchanged(
    ps: Seq<(Seq<char>, Seq<u8>)>,
    source: Seq<char>,
    password: Seq<u8>,
    other: Seq<char>,
)
    requires
        other != source,
    ensures
        password_bytes(with_password(ps, source, password), other) == password_bytes(ps, other),
{
    let f = for_source(source);
    let g = for_source(other);
    lemma_first_match_facts(ps, f);
    lemma_first_match_facts(ps, g);
    let next = with_password(ps, source, password);
    let j = password_entry(ps, other);
    let i = password_entry(ps, source);
    if 0 <= j < ps.len() {
        assert(j != i);
        assert forall|k: int| 0 <= k < j implies !g(#[trigger] next[k]) by {
            if k != i || !(0 <= i < ps.len()) {
                assert(next[k] == ps[k]);
            }
        }
        assert(next[j] == ps[j]);
        lemma_first_match(next, g, j);
    } else {
        assert forall|k: int| 0 <= k < next.len() implies !g(#[trigger] next[k]) by {
            if k < ps.len() && (k != i || !(0 <= i < ps.len())) {
                assert(next[k] == ps[k]);
            }
        }
        lemma_first_match(next, g, next.len() as int);
    }
}

/// What a tool job's run came to.
pub enum ExecutionResult<O> {
    Completed(O),
    PasswordRequired { source: String, wrong_password: bool },
    Cancelled,
    Failed(String),
}

/// What the worker reports of a job.
pub enum ToolEvent<O> {
    Completed { key: ToolJobKey, outcome: O },
    PasswordRequired { key: ToolJobKey, source: String, wrong_password: bool },
    Cancelled { key: ToolJobKey },
    Failed { key: ToolJobKey, message: String },
}

pub open spec fn event_key<O>(e: ToolEvent<O>) -> ToolJobKey {
    match e {
        ToolEvent::Completed { key, .. } => key,
        ToolEvent::PasswordRequired { key, .. } => key,
        ToolEvent::Cancelled { key } => key,
        ToolEvent::Failed { key, .. } => key,
    }
}

impl<O> ToolEvent<O> {
    pub fn key(&self) -> (r: ToolJobKey)
        ensures
            r == event_key(*self),
    {
        match self {
            ToolEvent::Completed { key, .. } => *key,
            ToolEvent::PasswordRequired { key, .. } => *key,
            ToolEvent::Cancelled { key } => *key,
            ToolEvent::Failed { key, .. } => *key,
        }
    }

    /// Every event ends its job but a request for a password.
    pub fn is_terminal(&self) -> (r: bool)
        ensures
            r == !(*self is PasswordRequired),
    {
        match self {
            ToolEvent::PasswordRequired { .. } => false,
            _ => true,
        }
    }
}

/// Why the tool worker did not take a job.
#[derive(Debug, Clone, Copy, PartialEq, Eq, Structural)]
pub enum ToolWorkerError {
    /// A job is running, queued, or waiting for a password.
    Busy,
    /// The worker has stopped.
    Disconnected,
}

/// The tool worker's one job: claimed when a job is submitted, freed when that job ends.
/// A job that waits for a password keeps it.
pub struct ToolJobSlot {
    busy: bool,
}

impl View for ToolJobSlot {
    type V = bool;

    /// Whether a job holds the worker.
    closed spec fn view(&self) -> bool {
        self.busy
    }
}

impl ToolJobSlot {
    pub fn new() -> (r: Self)
        ensures
            !r@,
    {
        ToolJobSlot { busy: false }
    }

    pub fn is_busy(&self) -> (r: bool)
        ensures
            r == self@,
    {
        self.busy
    }

    /// Claims the worker for a new job: refused while another job holds it.
    pub fn claim(&mut self) -> (r: Result<(), ToolWorkerError>)
        ensures
            old(self)@ ==> r == Err::<(), _>(ToolWorkerError::Busy),
            !old(self)@ ==> r is Ok,
            final(self)@,
    {
        if self.busy {
            return Err(ToolWorkerError::Busy);
        }
        self.busy = true;
        Ok(())
    }

    /// The claimed job could not be handed to the worker: the claim is undone and the
    /// error is passed on.
    pub fn send_failed(&mut self, error: ToolWorkerError) -> (r: ToolWorkerError)
        ensures
            !final(self)@,
            r == error,
    {
        self.busy = false;
        error
    }

    /// The worker reported an event of the job: every event but a request for a password
    /// ends it and frees the worker.
    pub fn settle<O>(&mut self, event: &ToolEvent<O>)
        ensures
            !(*event is PasswordRequired) ==> !final(self)@,
            *event is PasswordRequired ==> final(self)@ == old(self)@,
    {
        if event.is_terminal() {
            self.busy = false;
        }
    }

    /// The job waiting for a password was cancelled or dropped: the worker is free.
    pub fn release(&mut self)
        ensures
            !final(self)@,
    {
        self.busy = false;
    }
}

/// What the window does with an event of the tool worker, given the job it waits for.
pub enum ToolEventEffect<O> {
    /// Not about a job the window waits for: nothing changes.
    Ignore,
    /// The end of the job the window waits for, though its document or source changed
    /// since: the window stops waiting, and shows nothing of it.
    ForgetStale,
    /// The current job needs the password of `source`.
    AskPassword { source: String, wrong_password: bool },
    /// The current job finished with `outcome`.
    Completed(O),
    /// The current job stopped at the user's request.
    Cancelled,
    /// The current job failed with `message`.
    Failed(String),
}

/// The effect of `event` when the window waits for `active`, at `generation` with the tool
/// source `source_token`.
pub open spec fn event_effect_matches<O>(
    r: ToolEventEffect<O>,
    event: ToolEvent<O>,
    active: Option<ToolJobKey>,
    generation: u64,
    source_token: u64,
) -> bool {
    let key = event_key(event);
    let waited = active == Some(key);
    if waited && key.generation == generation && key.source_token == source_token {
        match event {
            ToolEvent::Completed { outcome, .. } => r == ToolEventEffect::Completed(outcome),
            ToolEvent::PasswordRequired { source, wrong_password, .. } => r matches ToolEventEffect::AskPassword {
                source: s,
                wrong_password: w,
            } && s@ == source@ && w == wrong_password,
            ToolEvent::Cancelled { .. } => r is Cancelled,
            ToolEvent::Failed { message, .. } => r matches ToolEventEffect::Failed(m) && m@ == message@,
        }
    } else if waited && !(event is PasswordRequired) {
        r is ForgetStale
    } else {
        r is Ignore
    }
}

/// Decides what an event of the tool worker does: only the job the window waits for, and
/// only while its document and source are unchanged, reaches the window; a stale end of
/// that job just stops the waiting.
pub fn tool_event_effect<O>(
    event: ToolEvent<O>,
    active: Option<ToolJobKey>,
    generation: u64,
    source_token: u64,
) -> (r: ToolEventEffect<O>)
    ensures
        event_effect_matches(r, event, active, generation, source_token),
{
    let key = event.key();
    let waited = match active {
        Some(a) => a.id == key.id && a.generation == key.generation && a.source_token
            == key.source_token,
        None => false,
    };
    if !(waited && key.is_current(generation, source_token)) {
        if waited && event.is_terminal() {
            return ToolEventEffect::ForgetStale;
        }
        return ToolEventEffect::Ignore;
    }
    match event {
        ToolEvent::Completed { outcome, .. } => ToolEventEffect::Completed(outcome),
        ToolEvent::PasswordRequired { source, wrong_password, .. } => ToolEventEffect::AskPassword {
            source,
            wrong_password,
        },
        ToolEvent::Cancelled { .. } => ToolEventEffect::Cancelled,
        ToolEvent::Failed { message, .. } => ToolEventEffect::Failed(message),
    }
}

/// A job that waits for the password of one of its sources.
pub struct PendingPassword<Op> {
    pub request: ToolRequest<Op>,
    pub source: String,
    pub wrong_password: bool,
}

/// The event that ends a run, or the request for a password; in that case the job waits in
/// `pending` for the answer.
pub fn settle_execution<Op, O>(
    request: ToolRequest<Op>,
    result: ExecutionResult<O>,
    pending: &mut Option<PendingPassword<Op>>,
) -> (r: ToolEvent<O>)
    ensures
        event_key(r) == request.key,
        match result {
            ExecutionResult::Completed(o) => r == (ToolEvent::Completed { key: request.key, outcome: o })
                && *final(pending) == *old(pending),
            ExecutionResult::PasswordRequired { source, wrong_password } => {
                &&& r matches ToolEvent::PasswordRequired { key, source: s, wrong_password: w }
                    && s@ == source@ && w == wrong_password
                &&& *final(pending) matches Some(p) && p.request == request && p.source@ == source@
                    && p.wrong_password == wrong_password
            },
            ExecutionResult::Cancelled => r == (ToolEvent::Cancelled::<O> { key: request.key })
                && *final(pending) == *old(pending),
            ExecutionResult::Failed(m) => r matches ToolEvent::Failed { key, message } && message@
                == m@ && *final(pending) == *old(pending),
        },
{
    let key = request.key;
    match result {
        ExecutionResult::Completed(outcome) => ToolEvent::Completed { key, outcome },
        ExecutionResult::PasswordRequired { source, wrong_password } => {
            let event = ToolEvent::PasswordRequired { key, source: source.clone(), wrong_password };
            *pending = Some(PendingPassword { request, source, wrong_password });
            event
        },
        ExecutionResult::Cancelled => ToolEvent::Cancelled { key },
        ExecutionResult::Failed(message) => ToolEvent::Failed { key, message },
    }
}

/// What the worker does with a password answer.
pub enum PasswordReply<Op> {
    /// No job waits: the password is wiped and dropped.
    Ignored,
    /// The answer is for another job or source: it is wiped and the password is asked again.
    StillRequired { key: ToolJobKey, source: String, wrong_password: bool },
    /// The waiting job runs again with the password.
    Retry(ToolRequest<Op>),
}

/// Takes a password answer: it goes to the waiting job only if both the job and the source
/// match what it waits for.
pub fn answer_password<Op>(
    pending: &mut Option<PendingPassword<Op>>,
    key: ToolJobKey,
    source: String,
    password: String,
) -> (r: PasswordReply<Op>)
    ensures
        match *old(pending) {
            None => r is Ignored && *final(pending) is None,
            Some(p) => if p.request.key != key || p.source@ != source@ {
                &&& r matches PasswordReply::StillRequired { key: k, source: s, wrong_password: w }
                    && k == p.request.key && s@ == p.source@ && w == p.wrong_password
                &&& *final(pending) == *old(pending)
            } else {
                &&& r matches PasswordReply::Retry(req) && req.key == p.request.key
                    && req.operation == p.request.operation && req.passwords() == with_password(
                    p.request.passwords(),
                    source@,
                    encode_utf8(password@),
                )
                &&& *final(pending) is None
            },
        },
{
    let matches = match pending {
        None => {
            clear_rejected_password(password);
            return PasswordReply::Ignored;
        },
        Some(p) => p.request.key == key && same_text(p.source.as_str(), source.as_str()),
    };
    if !matches {
        clear_rejected_password(password);
        return match pending {
            Some(p) => PasswordReply::StillRequired {
                key: p.request.key,
                source: p.source.clone(),
                wrong_password: p.wrong_password,
            },
            None => PasswordReply::Ignored,
        };
    }
    match pending.take() {
        Some(p) => {
            let mut request = p.request;
            request.replace_password(source, password);
            PasswordReply::Retry(request)
        },
        None => PasswordReply::Ignored,
    }
}

/// Cancels the waiting job when it is the one named; says whether it was.
pub fn cancel_pending<Op>(pending: &mut Option<PendingPassword<Op>>, key: ToolJobKey) -> (r: bool)
    ensures
        r == (*old(pending) matches Some(p) && p.request.key == key),
        r ==> *final(pending) is None,
        !r ==> *final(pending) == *old(pending),
{
    let hit = match pending {
        Some(p) => p.request.key == key,
        None => false,
    };
    if hit {
        *pending = None;
    }
    hit
}

/// Why a tool job's work stopped short.
pub enum ToolFailure {
    PasswordRequired { source: String, wrong_password: bool },
    Cancelled,
    Failed(String),
}

/// A run's result once the cancellation flag was read after the work: work that finished
/// after a cancellation counts as cancelled.
pub fn finish_execution<O>(cancelled_after: bool, work: Result<O, ToolFailure>) -> (r:
    ExecutionResult<O>)
    ensures
        match work {
            Ok(o) => if cancelled_after {
                r is Cancelled
            } else {
                r == ExecutionResult::Completed(o)
            },
            Err(ToolFailure::PasswordRequired { source, wrong_password }) => r matches
                ExecutionResult::PasswordRequired { source: s, wrong_password: w } && s@ == source@
                && w == wrong_password,
            Err(ToolFailure::Cancelled) => r is Cancelled,
            Err(ToolFailure::Failed(m)) => r matches ExecutionResult::Failed(x) && x@ == m@,
        },
{
    match work {
        Ok(outcome) => if cancelled_after {
            ExecutionResult::Cancelled
        } else {
            ExecutionResult::Completed(outcome)
        },
        Err(ToolFailure::PasswordRequired { source, wrong_password }) => {
            ExecutionResult::PasswordRequired { source, wrong_password }
        },
        Err(ToolFailure::Cancelled) => ExecutionResult::Cancelled,
        Err(ToolFailure::Failed(message)) => ExecutionResult::Failed(message),
    }
}

/// How a PDF error reaches a tool job: as a request for a password (a wrong one or none
/// given) or as a failure with its text.
pub enum PdfProblem {
    PasswordRequired,
    IncorrectPassword,
    Other(String),
}

pub fn operation_error(source: Option<String>, error: PdfProblem) -> (r: ToolFailure)
    ensures
        match error {
            PdfProblem::PasswordRequired => r matches ToolFailure::PasswordRequired {
                source: s,
                wrong_password: false,
            } && s@ == (match source {
                Some(p) => p@,
                None => Seq::<char>::empty(),
            }),
            PdfProblem::IncorrectPassword => r matches ToolFailure::PasswordRequired {
                source: s,
                wrong_password: true,
            } && s@ == (match source {
                Some(p) => p@,
                None => Seq::<char>::empty(),
            }),
            PdfProblem::Other(m) => r matches ToolFailure::Failed(x) && x@ == m@,
        },
{
    let path = match source {
        Some(p) => p,
        None => String::new(),
    };
    match error {
        PdfProblem::PasswordRequired => ToolFailure::PasswordRequired {
            source: path,
            wrong_password: false,
        },
        PdfProblem::IncorrectPassword => ToolFailure::PasswordRequired {
            source: path,
            wrong_password: true,
        },
        PdfProblem::Other(message) => ToolFailure::Failed(message),
    }
}

} // verus!

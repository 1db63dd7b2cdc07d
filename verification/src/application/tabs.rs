use vstd::prelude::*;
use crate::application::state::{document_view, is_loading_view, DocumentId, DocumentState, DocumentView};
use crate::seqs::{first_match, lemma_first_match, lemma_first_match_facts, lemma_first_match_same};

verus! {

/// Most tabs open at once.
pub const MAX_OPEN_TABS: usize = 16;

/// A tab's identity; never zero, never reused.
#[derive(Clone, Copy, Debug, PartialEq, Eq, Hash, Structural)]
pub struct TabId {
    pub raw: u64,
}

impl TabId {
    pub fn get(self) -> (r: u64)
        ensures
            r == self.raw,
    {
        self.raw
    }
}

/// One tab: the file it shows, its title, its document, and its view settings `V`.
pub struct TabState<V> {
    pub id: TabId,
    pub path: Option<String>,
    pub title: String,
    pub document: Option<DocumentState>,
    pub view: V,
}

pub ghost struct TabView<V> {
    pub id: u64,
    pub path: Option<Seq<char>>,
    pub title: Seq<char>,
    pub document: Option<DocumentView>,
    pub view: V,
}

pub open spec fn path_view(p: Option<String>) -> Option<Seq<char>> {
    match p {
        Some(s) => Some(s@),
        None => None,
    }
}

impl<V> TabState<V> {
    pub open spec fn spec_view(&self) -> TabView<V> {
        TabView {
            id: self.id.raw,
            path: path_view(self.path),
            title: self.title@,
            document: document_view(self.document),
            view: self.view,
        }
    }

    pub fn is_loading(&self) -> (r: bool)
        ensures
            r == is_loading_view(document_view(self.document)),
    {
        match &self.document {
            Some(DocumentState::Opening { .. }) | Some(DocumentState::PasswordRequired { .. }) => true,
            _ => false,
        }
    }
}

/// The outcome of opening a file in a tab.
#[derive(Clone, Copy, Debug, PartialEq, Eq, Structural)]
pub enum OpenTab {
    Existing(TabId),
    Created(TabId),
    Full,
}

/// The open tabs, the active one, and the last identity handed out.
pub struct TabSet<V> {
    tabs: Vec<TabState<V>>,
    active: Option<TabId>,
    next_id: u64,
}

pub ghost struct TabSetView<V> {
    pub tabs: Seq<TabView<V>>,
    pub active: Option<u64>,
    pub next_id: u64,
}

pub open spec fn has_id<V>(id: u64) -> spec_fn(TabView<V>) -> bool {
    |t: TabView<V>| t.id == id
}

/// Whether std's `Path` equality holds between two paths: compared component by
/// component, by the platform's path rules.
pub uninterp spec fn same_file_path(a: Seq<char>, b: Seq<char>) -> bool;

/// Two paths name the same file, as `Path` equality compares them: equal texts always
/// do, and the comparison is symmetric.
pub open spec fn same_file(a: Seq<char>, b: Seq<char>) -> bool {
    a == b || same_file_path(a, b) || same_file_path(b, a)
}

/// Two tabs' paths that both exist and name the same file.
pub open spec fn paths_clash(a: Option<Seq<char>>, b: Option<Seq<char>>) -> bool {
    a matches Some(p) && b matches Some(q) && same_file(p, q)
}

/// Calls `Path::eq` on two paths. `Path` equality is an equivalence, so the answer is the
/// same both ways round, and a path equals itself.
#[verifier::external_body]
pub(crate) fn paths_equal(a: &str, b: &str) -> (r: bool)
    ensures
        r == same_file_path(a@, b@),
        r == same_file_path(b@, a@),
        a@ == b@ ==> r,
{
    std::path::Path::new(a) == std::path::Path::new(b)
}

pub open spec fn has_path<V>(path: Seq<char>) -> spec_fn(TabView<V>) -> bool {
    |t: TabView<V>| paths_clash(t.path, Some(path))
}

impl<V> TabSetView<V> {
    /// Position of the tab `id`, or -1.
    pub open spec fn position(self, id: u64) -> int {
        first_match(self.tabs, has_id::<V>(id))
    }

    pub open spec fn contains(self, id: u64) -> bool {
        exists|i: int| 0 <= i < self.tabs.len() && self.tabs[i].id == id
    }

    /// Position of the active tab, or -1.
    pub open spec fn active_position(self) -> int {
        match self.active {
            Some(a) => self.position(a),
            None => -1,
        }
    }

    /// At most `MAX_OPEN_TABS` tabs, distinct non-zero identities at most `next_id`,
    /// an active tab that exists, and no file open in two tabs.
    pub open spec fn wf(self) -> bool {
        &&& self.tabs.len() <= MAX_OPEN_TABS
        &&& forall|i: int| 0 <= i < self.tabs.len() ==> 0 < #[trigger] self.tabs[i].id <= self.next_id
        &&& forall|i: int, j: int|
            0 <= i < j < self.tabs.len() ==> #[trigger] self.tabs[i].id != #[trigger] self.tabs[j].id
        &&& forall|i: int, j: int|
            0 <= i < j < self.tabs.len() ==> !paths_clash(
                (#[trigger] self.tabs[i]).path,
                (#[trigger] self.tabs[j]).path,
            )
        &&& self.active matches Some(a) ==> self.contains(a)
    }
}

impl<V> View for TabSet<V> {
    type V = TabSetView<V>;

    closed spec fn view(&self) -> TabSetView<V> {
        TabSetView {
            tabs: self.tabs@.map_values(|t: TabState<V>| t.spec_view()),
            active: match self.active {
                Some(a) => Some(a.raw),
                None => None,
            },
            next_id: self.next_id,
        }
    }
}

/// The identity of a document that finished opening.
pub open spec fn ready_document_id(d: Option<DocumentView>) -> Option<DocumentId> {
    match d {
        Some(DocumentView::Ready(r)) => Some(r.id),
        _ => None,
    }
}

/// A new tab for `path` (or none) with identity `id`.
pub open spec fn fresh_tab<V>(id: u64, path: Option<Seq<char>>, title: Seq<char>, view: V) -> TabView<V> {
    TabView { id, path, title, document: None, view }
}

/// What opening `path` does to `s`, and what it answers.
pub open spec fn open_outcome<V>(s: TabSetView<V>, path: Seq<char>, title: Seq<char>, view: V) -> (
    TabSetView<V>,
    OpenTab,
) {
    let existing = first_match(s.tabs, has_path::<V>(path));
    let a = s.active_position();
    if existing >= 0 {
        let id = s.tabs[existing].id;
        (TabSetView { active: Some(id), ..s }, OpenTab::Existing(TabId { raw: id }))
    } else if a >= 0 && s.tabs[a].path is None {
        let t = s.tabs[a];
        (
            TabSetView {
                tabs: s.tabs.update(a, TabView { path: Some(path), title, document: None, ..t }),
                ..s
            },
            OpenTab::Existing(TabId { raw: t.id }),
        )
    } else if s.tabs.len() >= MAX_OPEN_TABS || s.next_id == u64::MAX {
        (s, OpenTab::Full)
    } else {
        let id = (s.next_id + 1) as u64;
        (
            TabSetView {
                tabs: s.tabs.push(fresh_tab(id, Some(path), title, view)),
                active: Some(id),
                next_id: id,
            },
            OpenTab::Created(TabId { raw: id }),
        )
    }
}

/// What closing tab `id` does to `s`: the active tab passes to its right neighbour, else its left.
pub open spec fn close_outcome<V>(s: TabSetView<V>, id: u64) -> TabSetView<V> {
    let i = s.position(id);
    if i < 0 {
        s
    } else {
        let tabs = s.tabs.remove(i);
        let active = if s.active == Some(id) {
            if i < tabs.len() {
                Some(tabs[i].id)
            } else if i > 0 {
                Some(tabs[i - 1].id)
            } else {
                None
            }
        } else {
            s.active
        };
        TabSetView { tabs, active, next_id: s.next_id }
    }
}

impl<V> TabSet<V> {
    pub fn new() -> (r: Self)
        ensures
            r@.tabs.len() == 0,
            r@.active is None,
            r@.next_id == 0,
            r@.wf(),
    {
        let r = TabSet { tabs: Vec::new(), active: None, next_id: 0 };
        assert(r@.tabs =~= Seq::empty());
        r
    }

    pub fn tabs(&self) -> (r: &[TabState<V>])
        ensures
            r@.map_values(|t: TabState<V>| t.spec_view()) == self@.tabs,
    {
        self.tabs.as_slice()
    }

    pub fn active_id(&self) -> (r: Option<TabId>)
        ensures
            r matches Some(t) ==> self@.active == Some(t.raw),
            r is None ==> self@.active is None,
    {
        self.active
    }

    fn position_of(&self, id: TabId) -> (r: Option<usize>)
        ensures
            match r {
                Some(i) => i < self@.tabs.len() && self@.position(id.raw) == i,
                None => self@.position(id.raw) == -1,
            },
    {
        let ghost f = has_id::<V>(id.raw);
        let mut i: usize = 0;
        while i < self.tabs.len()
            invariant
                i <= self.tabs.len(),
                f == has_id::<V>(id.raw),
                self@.tabs.len() == self.tabs.len(),
                forall|k: int| 0 <= k < i ==> !f(#[trigger] self@.tabs[k]),
            decreases self.tabs.len() - i,
        {
            assert(self@.tabs[i as int] == self.tabs@[i as int].spec_view());
            if self.tabs[i].id == id {
                proof {
                    lemma_first_match(self@.tabs, f, i as int);
                }
                return Some(i);
            }
            i += 1;
        }
        proof {
            lemma_first_match(self@.tabs, f, i as int);
        }
        None
    }

    fn active_position_exec(&self) -> (r: Option<usize>)
        ensures
            match r {
                Some(i) => i < self@.tabs.len() && self@.active_position() == i,
                None => self@.active_position() == -1,
            },
    {
        match self.active {
            Some(a) => self.position_of(a),
            None => None,
        }
    }

    /// The active tab.
    pub fn active(&self) -> (r: Option<&TabState<V>>)
        ensures
            match r {
                Some(t) => self@.active_position() >= 0 && t.spec_view()
                    == self@.tabs[self@.active_position()],
                None => self@.active_position() == -1,
            },
    {
        match self.active_position_exec() {
            Some(i) => {
                assert(self@.tabs[i as int] == self.tabs@[i as int].spec_view());
                Some(&self.tabs[i])
            },
            None => None,
        }
    }

    fn position_of_path(&self, path: &str) -> (r: Option<usize>)
        ensures
            match r {
                Some(i) => i < self@.tabs.len() && first_match(self@.tabs, has_path::<V>(path@)) == i,
                None => first_match(self@.tabs, has_path::<V>(path@)) == -1,
            },
    {
        let ghost f = has_path::<V>(path@);
        let mut i: usize = 0;
        while i < self.tabs.len()
            invariant
                i <= self.tabs.len(),
                f == has_path::<V>(path@),
                self@.tabs.len() == self.tabs.len(),
                forall|k: int| 0 <= k < i ==> !f(#[trigger] self@.tabs[k]),
            decreases self.tabs.len() - i,
        {
            assert(self@.tabs[i as int] == self.tabs@[i as int].spec_view());
            let matches = match &self.tabs[i].path {
                Some(p) => paths_equal(p.as_str(), path),
                None => false,
            };
            if matches {
                proof {
                    lemma_first_match(self@.tabs, f, i as int);
                }
                return Some(i);
            }
            i += 1;
        }
        proof {
            lemma_first_match(self@.tabs, f, i as int);
        }
        None
    }

    /// Opens `path`: activates the tab that shows it, or reuses the active empty tab, or
    /// adds a tab with `view` while fewer than `MAX_OPEN_TABS` are open.
    pub fn open(&mut self, path: String, title: String, view: V) -> (r: OpenTab)
        requires
            old(self)@.wf(),
        ensures
            (final(self)@, r) == open_outcome(old(self)@, path@, title@, view),
            final(self)@.wf(),
    {
        let ghost s = self@;
        let ghost pathv = path@;
        proof {
            lemma_first_match_facts(s.tabs, has_path::<V>(path@));
        }
        if let Some(i) = self.position_of_path(path.as_str()) {
            let id = self.tabs[i].id;
            self.active = Some(id);
            proof {
                assert(s.tabs[i as int].id == id.raw);
                assert(self@.tabs =~= s.tabs);
                assert(self@.contains(id.raw));
            }
            return OpenTab::Existing(id);
        }
        if let Some(a) = self.active_position_exec() {
            if self.tabs[a].path.is_none() {
                assert(s.tabs[a as int] == self.tabs@[a as int].spec_view());
                let mut tab = self.tabs.remove(a);
                tab.path = Some(path);
                tab.title = title;
                tab.document = None;
                let id = tab.id;
                self.tabs.insert(a, tab);
                proof {
                    lemma_first_match_facts(s.tabs, has_id::<V>(s.active.unwrap()));
                    assert(has_id::<V>(s.active.unwrap())(s.tabs[a as int]));
                    let t = s.tabs[a as int];
                    let nt = TabView { path: Some(pathv), title: title@, document: None, ..t };
                    assert(self@.tabs =~= s.tabs.update(a as int, nt));
                    assert forall|j: int| 0 <= j < s.tabs.len() && j != a implies !paths_clash(
                        s.tabs[j].path,
                        Some(pathv),
                    ) by {
                        assert(!has_path::<V>(pathv)(s.tabs[j]));
                    }
                    assert(self@.contains(id.raw)) by {
                        assert(self@.tabs[a as int].id == id.raw);
                    }
                }
                return OpenTab::Existing(id);
            }
        }
        if self.tabs.len() >= MAX_OPEN_TABS || self.next_id == u64::MAX {
            return OpenTab::Full;
        }
        self.next_id = self.next_id + 1;
        let id = TabId { raw: self.next_id };
        self.tabs.push(TabState { id, path: Some(path), title, document: None, view });
        self.active = Some(id);
        proof {
            assert(self@.tabs =~= s.tabs.push(fresh_tab(id.raw, Some(pathv), title@, view)));
            assert forall|j: int| 0 <= j < s.tabs.len() implies !paths_clash(
                s.tabs[j].path,
                Some(pathv),
            ) by {
                assert(!has_path::<V>(pathv)(s.tabs[j]));
            }
            assert(self@.contains(id.raw)) by {
                assert(self@.tabs[s.tabs.len() as int].id == id.raw);
            }
        }
        OpenTab::Created(id)
    }

    /// Adds an empty tab with `view` and activates it, while fewer than `MAX_OPEN_TABS` are open.
    pub fn new_empty(&mut self, view: V) -> (r: Option<TabId>)
        requires
            old(self)@.wf(),
        ensures
            final(self)@.wf(),
            old(self)@.tabs.len() >= MAX_OPEN_TABS || old(self)@.next_id == u64::MAX ==> r is None
                && final(self)@ == old(self)@,
            old(self)@.tabs.len() < MAX_OPEN_TABS && old(self)@.next_id < u64::MAX ==> {
                let id = (old(self)@.next_id + 1) as u64;
                &&& r == Some(TabId { raw: id })
                &&& final(self)@ == (TabSetView {
                    tabs: old(self)@.tabs.push(fresh_tab(id, None, "New tab"@, view)),
                    active: Some(id),
                    next_id: id,
                })
            },
    {
        let ghost s = self@;
        if self.tabs.len() >= MAX_OPEN_TABS || self.next_id == u64::MAX {
            return None;
        }
        self.next_id = self.next_id + 1;
        let id = TabId { raw: self.next_id };
        self.tabs.push(
            TabState { id, path: None, title: "New tab".to_owned(), document: None, view },
        );
        self.active = Some(id);
        proof {
            assert(self@.tabs =~= s.tabs.push(fresh_tab(id.raw, None, "New tab"@, view)));
            assert(self@.contains(id.raw)) by {
                assert(self@.tabs[s.tabs.len() as int].id == id.raw);
            }
        }
        Some(id)
    }

    /// Makes tab `id` active, if it is open.
    pub fn activate(&mut self, id: TabId) -> (r: bool)
        requires
            old(self)@.wf(),
        ensures
            final(self)@.wf(),
            r == old(self)@.contains(id.raw),
            r ==> final(self)@ == (TabSetView { active: Some(id.raw), ..old(self)@ }),
            !r ==> final(self)@ == old(self)@,
    {
        let ghost s = self@;
        proof {
            lemma_first_match_facts(s.tabs, has_id::<V>(id.raw));
        }
        match self.position_of(id) {
            Some(i) => {
                self.active = Some(id);
                proof {
                    assert(self@.tabs =~= s.tabs);
                    assert(s.tabs[i as int].id == id.raw);
                }
                true
            },
            None => {
                assert forall|k: int| 0 <= k < s.tabs.len() implies s.tabs[k].id != id.raw by {
                    assert(!has_id::<V>(id.raw)(s.tabs[k]));
                }
                false
            },
        }
    }

    /// Closes tab `id`; an active tab passes activity to its right neighbour, else its left.
    pub fn close(&mut self, id: TabId) -> (r: bool)
        requires
            old(self)@.wf(),
        ensures
            final(self)@.wf(),
            r == old(self)@.contains(id.raw),
            final(self)@ == close_outcome(old(self)@, id.raw),
    {
        let ghost s = self@;
        proof {
            lemma_first_match_facts(s.tabs, has_id::<V>(id.raw));
        }
        let index = match self.position_of(id) {
            Some(i) => i,
            None => {
                assert forall|k: int| 0 <= k < s.tabs.len() implies s.tabs[k].id != id.raw by {
                    assert(!has_id::<V>(id.raw)(s.tabs[k]));
                }
                return false;
            },
        };
        let was_active = match self.active {
            Some(a) => a == id,
            None => false,
        };
        self.tabs.remove(index);
        assert(self@.tabs =~= s.tabs.remove(index as int));
        if was_active {
            if index < self.tabs.len() {
                self.active = Some(self.tabs[index].id);
                assert(self@.tabs[index as int].id == self.tabs@[index as int].id.raw);
            } else if index > 0 {
                self.active = Some(self.tabs[index - 1].id);
                assert(self@.tabs[index - 1].id == self.tabs@[index - 1].id.raw);
            } else {
                self.active = None;
            }
        }
        proof {
            let t = self@;
            assert(s.tabs[index as int].id == id.raw);
            if let Some(a) = t.active {
                if !was_active {
                    let j = choose|j: int| 0 <= j < s.tabs.len() && s.tabs[j].id == a;
                    assert(j != index);
                    if j < index {
                        assert(t.tabs[j] == s.tabs[j]);
                    } else {
                        assert(t.tabs[j - 1] == s.tabs[j]);
                    }
                } else if index < t.tabs.len() {
                    assert(t.tabs[index as int].id == a);
                } else {
                    assert(t.tabs[index - 1].id == a);
                }
            }
            assert forall|i: int, j: int|
                0 <= i < j < t.tabs.len() implies #[trigger] t.tabs[i].id != #[trigger] t.tabs[j].id by {
                let oi = if i < index { i } else { i + 1 };
                let oj = if j < index { j } else { j + 1 };
                assert(t.tabs[i] == s.tabs[oi]);
                assert(t.tabs[j] == s.tabs[oj]);
            }
            assert forall|i: int, j: int|
                0 <= i < j < t.tabs.len() implies !paths_clash(
                (#[trigger] t.tabs[i]).path,
                (#[trigger] t.tabs[j]).path,
            ) by {
                let oi = if i < index { i } else { i + 1 };
                let oj = if j < index { j } else { j + 1 };
                assert(t.tabs[i] == s.tabs[oi]);
                assert(t.tabs[j] == s.tabs[oj]);
            }
        }
        true
    }

    /// The open tab whose identity is `raw`.
    pub fn find_id(&self, raw: u64) -> (r: Option<TabId>)
        ensures
            r is Some <==> self@.contains(raw),
            r matches Some(t) ==> t.raw == raw,
    {
        let ghost s = self@;
        proof {
            lemma_first_match_facts(s.tabs, has_id::<V>(raw));
        }
        match self.position_of(TabId { raw }) {
            Some(i) => {
                assert(s.tabs[i as int].id == raw);
                Some(self.tabs[i].id)
            },
            None => {
                assert forall|k: int| 0 <= k < s.tabs.len() implies s.tabs[k].id != raw by {
                    assert(!has_id::<V>(raw)(s.tabs[k]));
                }
                None
            },
        }
    }

    /// The open document of tab `id`, when the tab holds one that finished opening.
    pub fn ready_document_of(&self, id: TabId) -> (r: Option<DocumentId>)
        ensures
            self@.position(id.raw) < 0 ==> r is None,
            self@.position(id.raw) >= 0 ==> r == ready_document_id(
                self@.tabs[self@.position(id.raw)].document,
            ),
    {
        match self.position_of(id) {
            Some(i) => {
                assert(self@.tabs[i as int] == self.tabs@[i as int].spec_view());
                match &self.tabs[i].document {
                    Some(DocumentState::Ready(document)) => Some(document.id),
                    _ => None,
                }
            },
            None => None,
        }
    }

    /// The file that tab `id` shows.
    pub fn path(&self, id: TabId) -> (r: Option<&str>)
        ensures
            self@.position(id.raw) < 0 ==> r is None,
            self@.position(id.raw) >= 0 ==> match self@.tabs[self@.position(id.raw)].path {
                Some(p) => r matches Some(x) && x@ == p,
                None => r is None,
            },
    {
        match self.position_of(id) {
            Some(i) => {
                assert(self@.tabs[i as int] == self.tabs@[i as int].spec_view());
                match &self.tabs[i].path {
                    Some(p) => Some(p.as_str()),
                    None => None,
                }
            },
            None => None,
        }
    }
}


impl<V> TabSetView<V> {
    /// The document of the active tab.
    pub open spec fn active_document(self) -> Option<DocumentView> {
        if self.active_position() >= 0 {
            self.tabs[self.active_position()].document
        } else {
            None
        }
    }

    /// The tab set with the active tab's document replaced by `d` (no change without an active tab).
    pub open spec fn with_active_document(self, d: Option<DocumentView>) -> TabSetView<V> {
        let a = self.active_position();
        if a >= 0 {
            TabSetView { tabs: self.tabs.update(a, TabView { document: d, ..self.tabs[a] }), ..self }
        } else {
            self
        }
    }

    /// The tab set with the active tab's view settings replaced by `v`.
    pub open spec fn with_active_view(self, v: V) -> TabSetView<V> {
        let a = self.active_position();
        if a >= 0 {
            TabSetView { tabs: self.tabs.update(a, TabView { view: v, ..self.tabs[a] }), ..self }
        } else {
            self
        }
    }
}

impl<V> TabSet<V> {
    /// Takes the document out of the active tab, leaving it without one.
    pub fn take_active_document(&mut self) -> (r: Option<DocumentState>)
        requires
            old(self)@.wf(),
        ensures
            final(self)@.wf(),
            document_view(r) == old(self)@.active_document(),
            final(self)@ == old(self)@.with_active_document(None),
    {
        let ghost s = self@;
        match self.active_position_exec() {
            Some(a) => {
                assert(s.tabs[a as int] == self.tabs@[a as int].spec_view());
                let mut tab = self.tabs.remove(a);
                let d = tab.document.take();
                self.tabs.insert(a, tab);
                proof {
                    lemma_first_match_facts(s.tabs, has_id::<V>(s.active.unwrap()));
                    assert(self@.tabs =~= s.tabs.update(a as int, TabView { document: None, ..s.tabs[a as int] }));
                    assert(self@.tabs[a as int].id == s.active.unwrap());
                }
                d
            },
            None => None,
        }
    }

    /// Gives the active tab the document `d`.
    pub fn set_active_document(&mut self, d: Option<DocumentState>)
        requires
            old(self)@.wf(),
        ensures
            final(self)@.wf(),
            final(self)@ == old(self)@.with_active_document(document_view(d)),
    {
        let ghost s = self@;
        let ghost dv = document_view(d);
        match self.active_position_exec() {
            Some(a) => {
                assert(s.tabs[a as int] == self.tabs@[a as int].spec_view());
                let mut tab = self.tabs.remove(a);
                tab.document = d;
                self.tabs.insert(a, tab);
                proof {
                    lemma_first_match_facts(s.tabs, has_id::<V>(s.active.unwrap()));
                    assert(self@.tabs =~= s.tabs.update(a as int, TabView { document: dv, ..s.tabs[a as int] }));
                    assert(self@.tabs[a as int].id == s.active.unwrap());
                }
            },
            None => {},
        }
    }

    /// Gives the active tab the view settings `v`.
    pub fn set_active_view(&mut self, v: V)
        requires
            old(self)@.wf(),
        ensures
            final(self)@.wf(),
            final(self)@ == old(self)@.with_active_view(v),
    {
        let ghost s = self@;
        match self.active_position_exec() {
            Some(a) => {
                assert(s.tabs[a as int] == self.tabs@[a as int].spec_view());
                let mut tab = self.tabs.remove(a);
                tab.view = v;
                self.tabs.insert(a, tab);
                proof {
                    lemma_first_match_facts(s.tabs, has_id::<V>(s.active.unwrap()));
                    assert(self@.tabs =~= s.tabs.update(a as int, TabView { view: v, ..s.tabs[a as int] }));
                    assert(self@.tabs[a as int].id == s.active.unwrap());
                }
            },
            None => {},
        }
    }
}


/// Replacing the active tab's document keeps which tab is active, and a second replacement
/// overrides the first.
pub proof fn lemma_with_active_document<V>(s: TabSetView<V>, d1: Option<DocumentView>, d2: Option<DocumentView>)
    requires
        s.wf(),
    ensures
        s.with_active_document(d1).active_position() == s.active_position(),
        s.with_active_document(d1).wf(),
        s.with_active_document(d1).with_active_document(d2) == s.with_active_document(d2),
        s.active_position() >= 0 ==> s.with_active_document(d1).active_document() == d1,
        s.active_position() < 0 ==> s.with_active_document(d1).active_document() is None,
{
    let t = s.with_active_document(d1);
    if let Some(a) = s.active {
        lemma_first_match_facts(s.tabs, has_id::<V>(a));
        assert forall|k: int| 0 <= k < s.tabs.len() implies has_id::<V>(a)(#[trigger] s.tabs[k]) == has_id::<V>(a)(t.tabs[k]) by {
            assert(t.tabs[k].id == s.tabs[k].id);
        }
        lemma_first_match_same(s.tabs, t.tabs, has_id::<V>(a));
        lemma_first_match_facts(s.tabs, has_id::<V>(a));
        let p = s.active_position();
        if p >= 0 {
            assert(t.tabs[p].id == s.tabs[p].id);
            assert(t.contains(a));
            assert forall|k: int| 0 <= k < t.tabs.len() implies has_id::<V>(a)(#[trigger] t.tabs[k]) == has_id::<V>(a)(t.with_active_document(d2).tabs[k]) by {
                assert(t.with_active_document(d2).tabs[k].id == t.tabs[k].id);
            }
            lemma_first_match_same(t.tabs, t.with_active_document(d2).tabs, has_id::<V>(a));
            assert(t.with_active_document(d2).tabs =~= s.with_active_document(d2).tabs);
        } else {
            assert(false);
        }
    }
}

/// Replacing the active tab's view settings keeps which tab is active.
pub proof fn lemma_with_active_view<V>(s: TabSetView<V>, v: V)
    requires
        s.wf(),
    ensures
        s.with_active_view(v).active_position() == s.active_position(),
        s.with_active_view(v).active_document() == s.active_document(),
        s.with_active_view(v).wf(),
{
    let t = s.with_active_view(v);
    if let Some(a) = s.active {
        lemma_first_match_facts(s.tabs, has_id::<V>(a));
        assert forall|k: int| 0 <= k < s.tabs.len() implies has_id::<V>(a)(#[trigger] s.tabs[k]) == has_id::<V>(a)(t.tabs[k]) by {
            assert(t.tabs[k].id == s.tabs[k].id);
        }
        lemma_first_match_same(s.tabs, t.tabs, has_id::<V>(a));
        lemma_first_match_facts(s.tabs, has_id::<V>(a));
        let p = s.active_position();
        if p >= 0 {
            assert(t.tabs[p].id == s.tabs[p].id);
            assert(t.contains(a));
        }
    }
}

/// Opening a file that a tab already shows activates that tab and adds none.
pub proof fn lemma_open_existing_adds_no_tab<V>(s: TabSetView<V>, path: Seq<char>, title: Seq<char>, view: V)
    requires
        s.wf(),
        exists|i: int| 0 <= i < s.tabs.len() && paths_clash(s.tabs[i].path, Some(path)),
    ensures
        ({
            let (t, r) = open_outcome(s, path, title, view);
            let i = first_match(s.tabs, has_path::<V>(path));
            &&& 0 <= i < s.tabs.len()
            &&& t.tabs == s.tabs
            &&& t.active == Some(s.tabs[i].id)
            &&& r == OpenTab::Existing(TabId { raw: s.tabs[i].id })
        }),
{
    lemma_first_match_facts(s.tabs, has_path::<V>(path));
    let i = choose|i: int| 0 <= i < s.tabs.len() && paths_clash(s.tabs[i].path, Some(path));
    assert(has_path::<V>(path)(s.tabs[i]));
}

/// A set of `MAX_OPEN_TABS` tabs refuses a new file unless the active tab is empty.
pub proof fn lemma_full_set_refuses_new_file<V>(s: TabSetView<V>, path: Seq<char>, title: Seq<char>, view: V)
    requires
        s.wf(),
        s.tabs.len() == MAX_OPEN_TABS,
        forall|i: int| 0 <= i < s.tabs.len() ==> !paths_clash(s.tabs[i].path, Some(path)),
        s.active_position() >= 0 ==> s.tabs[s.active_position()].path is Some,
    ensures
        open_outcome(s, path, title, view) == (s, OpenTab::Full),
{
    lemma_first_match_facts(s.tabs, has_path::<V>(path));
    if first_match(s.tabs, has_path::<V>(path)) >= 0 {
        assert(has_path::<V>(path)(s.tabs[first_match(s.tabs, has_path::<V>(path))]));
    }
}

/// Closing the tab that opening a file created gives back the tabs there were before.
pub proof fn lemma_close_undoes_created_tab<V>(s: TabSetView<V>, path: Seq<char>, title: Seq<char>, view: V)
    requires
        s.wf(),
    ensures
        ({
            let (t, r) = open_outcome(s, path, title, view);
            r matches OpenTab::Created(id) ==> close_outcome(t, id.raw).tabs == s.tabs
        }),
{
    let (t, r) = open_outcome(s, path, title, view);
    if let OpenTab::Created(id) = r {
        lemma_first_match_facts(s.tabs, has_path::<V>(path));
        let n = s.tabs.len() as int;
        assert(t.tabs == s.tabs.push(fresh_tab(id.raw, Some(path), title, view)));
        assert forall|k: int| 0 <= k < n implies !has_id::<V>(id.raw)(#[trigger] t.tabs[k]) by {
            assert(t.tabs[k] == s.tabs[k]);
        }
        lemma_first_match(t.tabs, has_id::<V>(id.raw), n);
        assert(t.tabs.remove(n) =~= s.tabs);
    }
}

/// A closed tab is gone; a tab that was not active does not change which tab is.
pub proof fn lemma_close_removes_tab<V>(s: TabSetView<V>, id: u64)
    requires
        s.wf(),
    ensures
        !close_outcome(s, id).contains(id),
        s.active != Some(id) ==> close_outcome(s, id).active == s.active,
        s.contains(id) ==> close_outcome(s, id).tabs.len() == s.tabs.len() - 1,
{
    lemma_first_match_facts(s.tabs, has_id::<V>(id));
    let i = s.position(id);
    let t = close_outcome(s, id);
    if i >= 0 {
        if t.contains(id) {
            let j = choose|j: int| 0 <= j < t.tabs.len() && t.tabs[j].id == id;
            let oj = if j < i { j } else { j + 1 };
            assert(t.tabs[j] == s.tabs[oj]);
            assert(s.tabs[i].id == id);
        }
    } else {
        if s.contains(id) {
            let j = choose|j: int| 0 <= j < s.tabs.len() && s.tabs[j].id == id;
            assert(has_id::<V>(id)(s.tabs[j]));
        }
    }
}

/// Opening a file keeps the tab set valid. A created tab has an identity never used before,
/// adds one tab and becomes active; an existing tab that now shows the same file (the one
/// that showed it, or the empty active tab that takes it) becomes active and the number of
/// tabs stays; a full set stays as it was.
pub proof fn lemma_open_keeps_tabs_valid<V>(s: TabSetView<V>, path: Seq<char>, title: Seq<char>, view: V)
    requires
        s.wf(),
    ensures
        ({
            let (t, r) = open_outcome(s, path, title, view);
            &&& t.wf()
            &&& r matches OpenTab::Created(id) ==> {
                &&& forall|i: int| 0 <= i < s.tabs.len() ==> s.tabs[i].id < id.raw
                &&& !s.contains(id.raw)
                &&& t.tabs.len() == s.tabs.len() + 1
                &&& t.active == Some(id.raw)
                &&& t.tabs.last().path == Some(path)
            }
            &&& r matches OpenTab::Existing(id) ==> {
                &&& t.tabs.len() == s.tabs.len()
                &&& t.active == Some(id.raw)
                &&& exists|i: int|
                    0 <= i < t.tabs.len() && t.tabs[i].id == id.raw && paths_clash(
                        #[trigger] t.tabs[i].path,
                        Some(path),
                    )
            }
            &&& r is Full ==> t == s
        }),
{
    lemma_first_match_facts(s.tabs, has_path::<V>(path));
    let (t, r) = open_outcome(s, path, title, view);
    let existing = first_match(s.tabs, has_path::<V>(path));
    let a = s.active_position();
    if existing >= 0 {
        assert(has_path::<V>(path)(s.tabs[existing]));
        assert(t.tabs[existing].id == s.tabs[existing].id);
        assert(t.contains(s.tabs[existing].id));
    } else if a >= 0 && s.tabs[a].path is None {
        lemma_first_match_facts(s.tabs, has_id::<V>(s.active.unwrap()));
        assert(has_id::<V>(s.active.unwrap())(s.tabs[a]));
        assert forall|j: int| 0 <= j < s.tabs.len() && j != a implies !paths_clash(
            s.tabs[j].path,
            Some(path),
        ) by {
            assert(!has_path::<V>(path)(s.tabs[j]));
        }
        assert(t.tabs[a].id == s.tabs[a].id);
        assert(t.contains(s.tabs[a].id));
        assert(t.tabs[a].path == Some(path));
        assert(paths_clash(t.tabs[a].path, Some(path)));
    } else if s.tabs.len() >= MAX_OPEN_TABS || s.next_id == u64::MAX {
    } else {
        let n = s.tabs.len() as int;
        assert forall|j: int| 0 <= j < s.tabs.len() implies !paths_clash(
            s.tabs[j].path,
            Some(path),
        ) by {
            assert(!has_path::<V>(path)(s.tabs[j]));
        }
        assert(t.tabs[n].id == s.next_id + 1);
        assert(t.contains(t.tabs[n].id));
        if s.contains((s.next_id + 1) as u64) {
            let j = choose|j: int| 0 <= j < s.tabs.len() && s.tabs[j].id == s.next_id + 1;
            assert(s.tabs[j].id <= s.next_id);
        }
    }
}

/// Opening a file a second time finds the tab that the first opening gave it: that tab
/// becomes active and no tab is added.
pub proof fn lemma_open_twice_finds_first_tab<V>(
    s: TabSetView<V>,
    path: Seq<char>,
    title: Seq<char>,
    view: V,
    title2: Seq<char>,
    view2: V,
)
    requires
        s.wf(),
    ensures
        ({
            let (t, r) = open_outcome(s, path, title, view);
            let (u, r2) = open_outcome(t, path, title2, view2);
            &&& r matches OpenTab::Created(id) ==> r2 == OpenTab::Existing(id) && u.tabs == t.tabs
                && u.active == Some(id.raw)
            &&& r matches OpenTab::Existing(id) ==> r2 == OpenTab::Existing(id) && u.tabs
                == t.tabs && u.active == Some(id.raw)
        }),
{
    lemma_first_match_facts(s.tabs, has_path::<V>(path));
    let (t, r) = open_outcome(s, path, title, view);
    lemma_first_match_facts(t.tabs, has_path::<V>(path));
    let existing = first_match(s.tabs, has_path::<V>(path));
    let a = s.active_position();
    if existing >= 0 {
        assert(t.tabs == s.tabs);
    } else if a >= 0 && s.tabs[a].path is None {
        lemma_first_match_facts(s.tabs, has_id::<V>(s.active.unwrap()));
        assert(has_path::<V>(path)(t.tabs[a]));
        assert forall|j: int| 0 <= j < a implies !has_path::<V>(path)(#[trigger] t.tabs[j]) by {
            assert(t.tabs[j] == s.tabs[j]);
        }
        lemma_first_match(t.tabs, has_path::<V>(path), a);
    } else if s.tabs.len() >= MAX_OPEN_TABS || s.next_id == u64::MAX {
    } else {
        let n = s.tabs.len() as int;
        assert(has_path::<V>(path)(t.tabs[n]));
        assert forall|j: int| 0 <= j < n implies !has_path::<V>(path)(#[trigger] t.tabs[j]) by {
            assert(t.tabs[j] == s.tabs[j]);
        }
        lemma_first_match(t.tabs, has_path::<V>(path), n);
    }
}

/// Closing the active tab while other tabs stay open leaves a tab active: the one that was
/// just to its right, or, for the rightmost tab, the one just to its left.
pub proof fn lemma_closing_active_tab_keeps_one_active<V>(s: TabSetView<V>, id: u64, i: int)
    requires
        s.wf(),
        s.active == Some(id),
        s.tabs.len() > 1,
        0 <= i < s.tabs.len(),
        s.tabs[i].id == id,
    ensures
        close_outcome(s, id).active is Some,
        i + 1 < s.tabs.len() ==> close_outcome(s, id).active == Some(s.tabs[i + 1].id),
        i + 1 == s.tabs.len() ==> close_outcome(s, id).active == Some(s.tabs[i - 1].id),
{
    lemma_first_match_facts(s.tabs, has_id::<V>(id));
    assert(has_id::<V>(id)(s.tabs[i]));
    let k = s.position(id);
    assert(0 <= k);
    assert(k == i) by {
        if k < i {
            assert(s.tabs[k].id == id);
        } else if k > i {
            assert(s.tabs[k].id == id);
        }
    }
    let tabs = s.tabs.remove(i);
    if i + 1 < s.tabs.len() {
        assert(tabs[i] == s.tabs[i + 1]);
    } else {
        assert(tabs[i - 1] == s.tabs[i - 1]);
    }
}

} // verus!
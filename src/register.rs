//! The register store: a set of uniquely named registers, each holding a
//! content text and a shortcut label.
use vstd::prelude::*;
use crate::entries::{
    lemma_map_of_contains, lemma_map_of_len, lemma_map_of_push, lemma_map_of_remove,
    lemma_map_of_update, lemma_map_of_value, map_of, names_distinct, EntryModel,
};
use crate::model::{
    add_model, content_model, fresh_register, remove_model, update_content_model,
    update_shortcut_model, RegisterModel, StoreModel,
};

verus! {

/// One register: the text it holds and the shortcut bound to it.
#[derive(Clone, Debug)]
pub struct ClipboardRegister {
    pub content: String,
    pub shortcut: String,
}

impl View for ClipboardRegister {
    type V = RegisterModel;

    open spec fn view(&self) -> RegisterModel {
        RegisterModel { content: self.content@, shortcut: self.shortcut@ }
    }
}

/// The mathematical value of a list of (name, register) pairs.
pub open spec fn entry_views(s: Seq<(String, ClipboardRegister)>) -> Seq<EntryModel> {
    s.map_values(|e: (String, ClipboardRegister)| (e.0@, e.1@))
}

/// `entries` lists every register of `m` once, in some order.
pub open spec fn is_listing_of(entries: Seq<(String, ClipboardRegister)>, m: StoreModel) -> bool {
    names_distinct(entry_views(entries)) && map_of(entry_views(entries)) == m
}

/// The mathematical value of an optional text.
pub open spec fn opt_text(r: Option<String>) -> Option<Seq<char>> {
    match r {
        Some(s) => Some(s@),
        None => None,
    }
}

/// The store of all registers, keyed by name.
#[derive(Clone, Debug)]
pub struct ClipboardState {
    registers: Vec<(String, ClipboardRegister)>,
}

impl View for ClipboardState {
    type V = StoreModel;

    closed spec fn view(&self) -> StoreModel {
        map_of(entry_views(self.registers@))
    }
}

impl ClipboardState {
    /// Every name occurs once.
    pub closed spec fn wf(&self) -> bool {
        names_distinct(entry_views(self.registers@))
    }

    /// An empty store.
    pub fn new() -> (r: ClipboardState)
        ensures
            r.wf(),
            r@ == Map::<Seq<char>, RegisterModel>::empty(),
    {
        let r = ClipboardState { registers: Vec::new() };
        assert(entry_views(r.registers@) =~= Seq::empty());
        r
    }

    /// Creates a register called `name` with the given shortcut and empty
    /// content. Fails, changing nothing, when the name is taken.
    pub fn add_register(&mut self, name: String, shortcut: String) -> (r: bool)
        requires
            old(self).wf(),
        ensures
            final(self).wf(),
            r == !old(self)@.contains_key(name@),
            final(self)@ == add_model(old(self)@, name@, shortcut@),
    {
        match self.find(name.as_str()) {
            Some(i) => {
                proof {
                    lemma_map_of_value(entry_views(self.registers@), i as int);
                }
                false
            },
            None => {
                let reg = ClipboardRegister { content: String::new(), shortcut };
                proof {
                    let e = (name, reg);
                    assert(entry_views(self.registers@.push(e)) =~= entry_views(
                        self.registers@,
                    ).push((name@, fresh_register(shortcut@))));
                    lemma_map_of_push(
                        entry_views(self.registers@),
                        (name@, fresh_register(shortcut@)),
                    );
                }
                self.registers.push((name, reg));
                assert(entry_views(self.registers@) =~= entry_views(old(self).registers@).push(
                    (name@, fresh_register(shortcut@)),
                ));
                true
            },
        }
    }

    /// Replaces the content of the register called `name`. Fails, changing
    /// nothing, when there is none.
    pub fn update_register_content(&mut self, name: &str, content: String) -> (r: bool)
        requires
            old(self).wf(),
        ensures
            final(self).wf(),
            r == old(self)@.contains_key(name@),
            final(self)@ == update_content_model(old(self)@, name@, content@),
    {
        match self.find(name) {
            Some(i) => {
                proof {
                    let v = entry_views(self.registers@);
                    lemma_map_of_value(v, i as int);
                    let nv = RegisterModel { content: content@, shortcut: v[i as int].1.shortcut };
                    lemma_map_of_update(v, i as int, nv);
                }
                let ghost before = self.registers@;
                self.registers[i].1.content = content;
                proof {
                    let v = entry_views(before);
                    let nv = RegisterModel { content: content@, shortcut: v[i as int].1.shortcut };
                    assert(entry_views(self.registers@) =~= v.update(i as int, (v[i as int].0, nv)));
                }
                true
            },
            None => false,
        }
    }

    /// Replaces the shortcut of the register called `name`. Fails, changing
    /// nothing, when there is none.
    pub fn update_shortcut(&mut self, name: &str, shortcut: String) -> (r: bool)
        requires
            old(self).wf(),
        ensures
            final(self).wf(),
            r == old(self)@.contains_key(name@),
            final(self)@ == update_shortcut_model(old(self)@, name@, shortcut@),
    {
        match self.find(name) {
            Some(i) => {
                proof {
                    let v = entry_views(self.registers@);
                    lemma_map_of_value(v, i as int);
                    let nv = RegisterModel { content: v[i as int].1.content, shortcut: shortcut@ };
                    lemma_map_of_update(v, i as int, nv);
                }
                let ghost before = self.registers@;
                self.registers[i].1.shortcut = shortcut;
                proof {
                    let v = entry_views(before);
                    let nv = RegisterModel { content: v[i as int].1.content, shortcut: shortcut@ };
                    assert(entry_views(self.registers@) =~= v.update(i as int, (v[i as int].0, nv)));
                }
                true
            },
            None => false,
        }
    }

    /// The content of the register called `name`, if there is one.
    pub fn get_register_content(&self, name: &str) -> (r: Option<String>)
        requires
            self.wf(),
        ensures
            opt_text(r) == content_model(self@, name@),
    {
        match self.find(name) {
            Some(i) => {
                proof {
                    lemma_map_of_value(entry_views(self.registers@), i as int);
                }
                Some(self.registers[i].1.content.clone())
            },
            None => None,
        }
    }

    /// Deletes the register called `name`. Fails, changing nothing, when
    /// there is none.
    pub fn remove_register(&mut self, name: &str) -> (r: bool)
        requires
            old(self).wf(),
        ensures
            final(self).wf(),
            r == old(self)@.contains_key(name@),
            final(self)@ == remove_model(old(self)@, name@),
    {
        match self.find(name) {
            Some(i) => {
                proof {
                    let v = entry_views(self.registers@);
                    lemma_map_of_value(v, i as int);
                    lemma_map_of_remove(v, i as int);
                    assert(entry_views(self.registers@.remove(i as int)) =~= v.remove(i as int));
                }
                self.registers.remove(i);
                true
            },
            None => {
                assert(self@.remove(name@) =~= self@);
                false
            },
        }
    }

    /// A copy of every register with its name, each once, in no promised
    /// order. Later changes to the store do not reach it.
    pub fn get_all_registers(&self) -> (r: Vec<(String, ClipboardRegister)>)
        requires
            self.wf(),
        ensures
            is_listing_of(r@, self@),
            r@.len() == self@.len(),
    {
        let n = self.registers.len();
        let mut out: Vec<(String, ClipboardRegister)> = Vec::new();
        let mut i: usize = 0;
        while i < n
            invariant
                n == self.registers@.len(),
                i <= n,
                entry_views(out@) =~= entry_views(self.registers@).take(i as int),
            decreases n - i,
        {
            let e = &self.registers[i];
            let reg = ClipboardRegister {
                content: e.1.content.clone(),
                shortcut: e.1.shortcut.clone(),
            };
            let ghost prev = out@;
            out.push((e.0.clone(), reg));
            assert(reg@ == e.1@);
            assert(entry_views(out@) =~= entry_views(prev).push((e.0@, e.1@)));
            assert(entry_views(out@) =~= entry_views(self.registers@).take(i + 1));
            i = i + 1;
        }
        proof {
            assert(entry_views(out@) =~= entry_views(self.registers@));
            lemma_map_of_len(entry_views(self.registers@));
        }
        out
    }

    /// A store holding the given registers. Where two entries share a name,
    /// the later one is kept.
    pub fn from_registers(entries: Vec<(String, ClipboardRegister)>) -> (r: ClipboardState)
        ensures
            r.wf(),
            r@ == map_of(entry_views(entries@)),
    {
        let mut r = ClipboardState::new();
        let n = entries.len();
        let mut i: usize = 0;
        while i < n
            invariant
                n == entries@.len(),
                i <= n,
                r.wf(),
                r@ == map_of(entry_views(entries@).take(i as int)),
            decreases n - i,
        {
            let e = &entries[i];
            let reg = ClipboardRegister {
                content: e.1.content.clone(),
                shortcut: e.1.shortcut.clone(),
            };
            r.put(e.0.clone(), reg);
            proof {
                let v = entry_views(entries@);
                assert(v.take(i + 1).drop_last() =~= v.take(i as int));
            }
            i = i + 1;
        }
        assert(entry_views(entries@).take(n as int) =~= entry_views(entries@));
        r
    }

    /// The store that a persisted document gives: `None` when there is no
    /// document, which yields an empty store; otherwise the registers that
    /// were read from it, or the reason they could not be read.
    pub fn from_document(
        document: Option<Result<Vec<(String, ClipboardRegister)>, String>>,
    ) -> (r: Result<ClipboardState, String>)
        ensures
            r matches Ok(s) ==> s.wf(),
            match document {
                None => r matches Ok(s) && s@ == Map::<Seq<char>, RegisterModel>::empty(),
                Some(Ok(entries)) => r matches Ok(s) && s@ == map_of(entry_views(entries@)),
                Some(Err(e)) => r == Err::<ClipboardState, String>(e),
            },
    {
        match document {
            None => Ok(ClipboardState::new()),
            Some(Ok(entries)) => Ok(ClipboardState::from_registers(entries)),
            Some(Err(e)) => Err(e),
        }
    }

    /// Sets the register called `name`, adding it or replacing it.
    fn put(&mut self, name: String, reg: ClipboardRegister)
        requires
            old(self).wf(),
        ensures
            final(self).wf(),
            final(self)@ == old(self)@.insert(name@, reg@),
    {
        match self.find(name.as_str()) {
            Some(i) => {
                proof {
                    lemma_map_of_update(entry_views(self.registers@), i as int, reg@);
                }
                let ghost before = self.registers@;
                self.registers[i].1 = reg;
                assert(entry_views(self.registers@) =~= entry_views(before).update(
                    i as int,
                    (name@, reg@),
                ));
            },
            None => {
                proof {
                    lemma_map_of_push(entry_views(self.registers@), (name@, reg@));
                }
                self.registers.push((name, reg));
                assert(entry_views(self.registers@) =~= entry_views(old(self).registers@).push(
                    (name@, reg@),
                ));
            },
        }
    }

    /// The position of the register called `name`, if there is one.
    fn find(&self, name: &str) -> (r: Option<usize>)
        requires
            self.wf(),
        ensures
            match r {
                Some(i) => i < self.registers@.len() && self.registers@[i as int].0@ == name@,
                None => !self@.contains_key(name@),
            },
    {
        let key = name.to_owned();
        let n = self.registers.len();
        let mut i: usize = 0;
        while i < n
            invariant
                n == self.registers@.len(),
                i <= n,
                key@ == name@,
                forall|j: int| 0 <= j < i ==> #[trigger] self.registers@[j].0@ != name@,
            decreases n - i,
        {
            if self.registers[i].0 == key {
                return Some(i);
            }
            i = i + 1;
        }
        proof {
            let v = entry_views(self.registers@);
            lemma_map_of_contains(v, name@);
            if self@.contains_key(name@) {
                let j = choose|j: int| 0 <= j < v.len() && #[trigger] v[j].0 == name@;
                assert(self.registers@[j].0@ == name@);
            }
        }
        None
    }
}

/// Rebuilding a store from a listing of it gives back that store, with as
/// many registers as the listing has entries: what is saved is what loads.
pub proof fn lemma_listing_restores(entries: Seq<(String, ClipboardRegister)>, m: StoreModel)
    requires
        is_listing_of(entries, m),
    ensures
        map_of(entry_views(entries)) == m,
        entries.len() == m.len(),
{
    lemma_map_of_len(entry_views(entries));
}

} // verus!

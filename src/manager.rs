//! The handle that hosts hold: one store, loaded once, changed one operation
//! at a time. Callers that share it across threads put it behind one lock.
use vstd::prelude::*;
use crate::model::{
    add_model, content_model, remove_model, update_content_model, update_shortcut_model,
    RegisterModel, StoreModel,
};
use crate::register::{is_listing_of, opt_text, ClipboardRegister, ClipboardState};

verus! {

/// The name of the file, in the user's home directory, that holds the
/// persisted store.
pub const CONFIG_FILE_NAME: &'static str = ".clipboard_manager_config.json";

/// Owner of the one register store of a process.
pub struct ClipboardManager {
    state: ClipboardState,
}

impl View for ClipboardManager {
    type V = StoreModel;

    closed spec fn view(&self) -> StoreModel {
        self.state@
    }
}

impl ClipboardManager {
    pub closed spec fn wf(&self) -> bool {
        self.state.wf()
    }

    /// The manager over what loading gave: the loaded store, or an empty one
    /// when loading failed. A failed load never stops start-up.
    pub fn from_load_result(loaded: Result<ClipboardState, String>) -> (r: ClipboardManager)
        requires
            loaded matches Ok(s) ==> s.wf(),
        ensures
            r.wf(),
            match loaded {
                Ok(s) => r@ == s@,
                Err(_) => r@ == Map::<Seq<char>, RegisterModel>::empty(),
            },
    {
        match loaded {
            Ok(state) => ClipboardManager { state },
            Err(_) => ClipboardManager { state: ClipboardState::new() },
        }
    }

    /// The store, for persisting it.
    pub fn state(&self) -> (r: &ClipboardState)
        requires
            self.wf(),
        ensures
            r.wf(),
            r@ == self@,
    {
        &self.state
    }

    /// Creates a register with empty content; fails when the name is taken.
    pub fn add_register(&mut self, name: &str, shortcut: &str) -> (r: bool)
        requires
            old(self).wf(),
        ensures
            final(self).wf(),
            r == !old(self)@.contains_key(name@),
            final(self)@ == add_model(old(self)@, name@, shortcut@),
    {
        self.state.add_register(name.to_owned(), shortcut.to_owned())
    }

    /// Replaces a register's content; fails when there is no such register.
    pub fn update_register_content(&mut self, name: &str, content: &str) -> (r: bool)
        requires
            old(self).wf(),
        ensures
            final(self).wf(),
            r == old(self)@.contains_key(name@),
            final(self)@ == update_content_model(old(self)@, name@, content@),
    {
        self.state.update_register_content(name, content.to_owned())
    }

    /// A register's content, if the register exists.
    pub fn get_register_content(&self, name: &str) -> (r: Option<String>)
        requires
            self.wf(),
        ensures
            opt_text(r) == content_model(self@, name@),
    {
        self.state.get_register_content(name)
    }

    /// Deletes a register; fails when there is no such register.
    pub fn remove_register(&mut self, name: &str) -> (r: bool)
        requires
            old(self).wf(),
        ensures
            final(self).wf(),
            r == old(self)@.contains_key(name@),
            final(self)@ == remove_model(old(self)@, name@),
    {
        self.state.remove_register(name)
    }

    /// Replaces a register's shortcut; fails when there is no such register.
    pub fn update_shortcut(&mut self, name: &str, shortcut: &str) -> (r: bool)
        requires
            old(self).wf(),
        ensures
            final(self).wf(),
            r == old(self)@.contains_key(name@),
            final(self)@ == update_shortcut_model(old(self)@, name@, shortcut@),
    {
        self.state.update_shortcut(name, shortcut.to_owned())
    }

    /// A snapshot of every register with its name, in no promised order.
    pub fn get_all_registers(&self) -> (r: Vec<(String, ClipboardRegister)>)
        requires
            self.wf(),
        ensures
            is_listing_of(r@, self@),
            r@.len() == self@.len(),
    {
        self.state.get_all_registers()
    }
}

} // verus!

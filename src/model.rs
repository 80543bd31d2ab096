use vstd::prelude::*;

verus! {

/// The mathematical value of one register: its text and its shortcut label.
pub ghost struct RegisterModel {
    pub content: Seq<char>,
    pub shortcut: Seq<char>,
}

/// The mathematical value of a store: register name to register.
pub type StoreModel = Map<Seq<char>, RegisterModel>;

/// A freshly added register: empty content, the given shortcut.
pub open spec fn fresh_register(shortcut: Seq<char>) -> RegisterModel {
    RegisterModel { content: Seq::empty(), shortcut }
}

/// The store after `add(name, shortcut)`: unchanged when the name is taken.
pub open spec fn add_model(m: StoreModel, name: Seq<char>, shortcut: Seq<char>) -> StoreModel {
    if m.contains_key(name) {
        m
    } else {
        m.insert(name, fresh_register(shortcut))
    }
}

/// The store after `update_content(name, content)`: unchanged when the name is absent.
pub open spec fn update_content_model(
    m: StoreModel,
    name: Seq<char>,
    content: Seq<char>,
) -> StoreModel {
    if m.contains_key(name) {
        m.insert(name, RegisterModel { content, shortcut: m[name].shortcut })
    } else {
        m
    }
}

/// The store after `update_shortcut(name, shortcut)`: unchanged when the name is absent.
pub open spec fn update_shortcut_model(
    m: StoreModel,
    name: Seq<char>,
    shortcut: Seq<char>,
) -> StoreModel {
    if m.contains_key(name) {
        m.insert(name, RegisterModel { content: m[name].content, shortcut })
    } else {
        m
    }
}

/// The store after `remove(name)`.
pub open spec fn remove_model(m: StoreModel, name: Seq<char>) -> StoreModel {
    m.remove(name)
}

/// What a content lookup returns.
pub open spec fn content_model(m: StoreModel, name: Seq<char>) -> Option<Seq<char>> {
    if m.contains_key(name) {
        Some(m[name].content)
    } else {
        None
    }
}

/// A register added under a new name exists, with the given shortcut, and
/// its content reads as empty.
pub proof fn lemma_add_new_name(m: StoreModel, name: Seq<char>, shortcut: Seq<char>)
    requires
        !m.contains_key(name),
    ensures
        add_model(m, name, shortcut).contains_key(name),
        add_model(m, name, shortcut)[name].shortcut == shortcut,
        content_model(add_model(m, name, shortcut), name) == Some(Seq::<char>::empty()),
{
}

/// Adding under a name that is taken changes no register.
pub proof fn lemma_add_taken_name(m: StoreModel, name: Seq<char>, shortcut: Seq<char>)
    requires
        m.contains_key(name),
    ensures
        add_model(m, name, shortcut) == m,
{
}

/// Updating the content or the shortcut of an absent name changes nothing and
/// creates no register.
pub proof fn lemma_update_absent_name(
    m: StoreModel,
    name: Seq<char>,
    content: Seq<char>,
    shortcut: Seq<char>,
)
    requires
        !m.contains_key(name),
    ensures
        update_content_model(m, name, content) == m,
        update_shortcut_model(m, name, shortcut) == m,
        !update_content_model(m, name, content).contains_key(name),
        !update_shortcut_model(m, name, shortcut).contains_key(name),
{
}

/// Removing an existing name deletes it, so a second removal of the same name
/// finds nothing and changes nothing.
pub proof fn lemma_remove_twice(m: StoreModel, name: Seq<char>)
    requires
        m.contains_key(name),
    ensures
        !remove_model(m, name).contains_key(name),
        remove_model(remove_model(m, name), name) == remove_model(m, name),
{
    assert(remove_model(remove_model(m, name), name) =~= remove_model(m, name));
}

/// The last content written to a register is the content read back.
pub proof fn lemma_read_after_update(m: StoreModel, name: Seq<char>, content: Seq<char>)
    requires
        m.contains_key(name),
    ensures
        content_model(update_content_model(m, name, content), name) == Some(content),
{
}

} // verus!

//! Identifiers of the sections of the details view. An identifier is a path of names, such
//! as `details/<commit>/tree_changes/0/hunks/2`; every path handed out is kept in a storage.

use vstd::hash_set::StringHashSet;
use vstd::prelude::*;
use vstd::string::*;

verus! {

/// The paths that were handed out so far, each once.
pub struct IdStorage {
    texts: StringHashSet,
}

impl View for IdStorage {
    type V = Set<Seq<char>>;

    closed spec fn view(&self) -> Set<Seq<char>> {
        self.texts@
    }
}

impl IdStorage {
    /// A storage that holds nothing.
    pub fn new() -> (r: IdStorage)
        ensures
            r@ == Set::<Seq<char>>::empty(),
    {
        IdStorage { texts: StringHashSet::new() }
    }

    /// The number of paths that were handed out.
    pub fn len(&self) -> (r: usize)
        ensures
            r == self@.len(),
    {
        self.texts.len()
    }

    /// True if `text` was handed out.
    pub fn contains(&self, text: &str) -> (r: bool)
        ensures
            r == self@.contains(text@),
    {
        self.texts.contains(text)
    }
}

/// Names a section; lines with the same identifier belong together.
#[derive(Debug, PartialEq, Eq)]
pub struct SectionId(pub String);

impl View for SectionId {
    type V = Seq<char>;

    open spec fn view(&self) -> Seq<char> {
        self.0@
    }
}

impl Clone for SectionId {
    fn clone(&self) -> (r: SectionId)
        ensures
            r@ == self@,
    {
        SectionId(self.0.clone())
    }
}

/// The path of `name` inside `scope`.
pub open spec fn path_in(scope: Seq<char>, name: Seq<char>) -> Seq<char> {
    scope + seq!['/'] + name
}

/// The text of the path of `name` inside `scope`.
fn path_text(scope: &str, name: &str) -> (r: String)
    ensures
        r@ == path_in(scope@, name@),
{
    let mut text = scope.to_owned();
    text.append("/");
    text.append(name);
    proof {
        reveal_strlit("/");
        assert("/"@ =~= seq!['/']);
    }
    text
}

/// Makes the identifiers of one scope.
pub struct IdGen<'a> {
    pub storage: &'a mut IdStorage,
    pub scope: String,
}

impl<'a> IdGen<'a> {
    /// A generator for `scope` that keeps its paths in `storage`.
    pub fn new(storage: &'a mut IdStorage, scope: &str) -> (r: IdGen<'a>)
        ensures
            r.scope@ == scope@,
            *r.storage == *old(storage),
            *final(r.storage) == *final(storage),
    {
        IdGen { storage, scope: scope.to_owned() }
    }

    /// The identifier of `id` in the scope of the generator.
    pub fn new_id(&mut self, id: &str) -> (r: SectionId)
        ensures
            r@ == path_in(old(self).scope@, id@),
            final(self).storage@ == old(self).storage@.insert(path_in(old(self).scope@, id@)),
            final(self).scope@ == old(self).scope@,
            *final(final(self).storage) == *final(old(self).storage),
    {
        let text = path_text(self.scope.as_str(), id);
        SectionId(self.get_or_alloc(text))
    }

    /// A generator for the scope `scope` inside this one. It borrows the storage, so what it
    /// hands out is kept where this generator keeps its own paths.
    pub fn scoped<'b>(&'b mut self, scope: &str) -> (r: IdGen<'b>)
        ensures
            r.scope@ == path_in(old(self).scope@, scope@),
            r.storage@ == old(self).storage@.insert(path_in(old(self).scope@, scope@)),
            *final(self).storage == *final(r.storage),
            final(self).scope@ == old(self).scope@,
            *final(final(self).storage) == *final(old(self).storage),
    {
        let text = path_text(self.scope.as_str(), scope);
        let scope = self.get_or_alloc(text);
        IdGen { storage: &mut *self.storage, scope }
    }

    /// The kept text that equals `s`; if there is none yet, `s` is kept.
    pub fn get_or_alloc(&mut self, s: String) -> (r: String)
        ensures
            r@ == s@,
            final(self).storage@ == old(self).storage@.insert(s@),
            final(self).scope@ == old(self).scope@,
            *final(final(self).storage) == *final(old(self).storage),
    {
        if let Some(kept) = self.storage.texts.get(s.as_str()) {
            let r = kept.clone();
            proof {
                assert(self.storage@ =~= old(self).storage@.insert(s@));
            }
            return r;
        }
        let copy = s.clone();
        self.storage.texts.insert(copy);
        s
    }
}

/// Handing a path out a second time keeps nothing new.
pub proof fn law_alloc_idempotent(kept: Set<Seq<char>>, text: Seq<char>)
    ensures
        kept.insert(text).insert(text) == kept.insert(text),
        kept.contains(text) ==> kept.insert(text) == kept,
{
    assert(kept.insert(text).insert(text) =~= kept.insert(text));
    if kept.contains(text) {
        assert(kept.insert(text) =~= kept);
    }
}

/// Two names have the same path in a scope only if they are the same name.
pub proof fn law_path_injective(scope: Seq<char>, a: Seq<char>, b: Seq<char>)
    requires
        path_in(scope, a) == path_in(scope, b),
    ensures
        a == b,
{
    let n = scope.len() as int + 1;
    assert(path_in(scope, a).skip(n) =~= a);
    assert(path_in(scope, b).skip(n) =~= b);
}

/// A path tells its scope and its name apart, as long as the name holds no slash.
pub proof fn law_path_splits(s: Seq<char>, a: Seq<char>, t: Seq<char>, b: Seq<char>)
    requires
        path_in(s, a) == path_in(t, b),
        !a.contains('/'),
        !b.contains('/'),
    ensures
        s == t,
        a == b,
{
    let p = path_in(s, a);
    let q = path_in(t, b);
    assert(p[s.len() as int] == '/');
    assert(q[t.len() as int] == '/');
    assert(p.len() == s.len() + 1 + a.len());
    assert(q.len() == t.len() + 1 + b.len());
    if s.len() < t.len() {
        let k = t.len() - s.len() - 1;
        assert(p[t.len() as int] == a[k]);
        assert(a.contains(a[k]));
    } else if t.len() < s.len() {
        let k = s.len() - t.len() - 1;
        assert(q[s.len() as int] == b[k]);
        assert(b.contains(b[k]));
    }
    assert(p.take(s.len() as int) =~= s);
    assert(q.take(t.len() as int) =~= t);
    law_path_injective(s, a, b);
}

} // verus!

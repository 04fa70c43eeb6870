//! The machine the application runs on, and the places it keeps files at.
use vstd::prelude::*;

verus! {

/// The operating system.
#[derive(Debug, Clone, Copy, PartialEq, Eq, Structural)]
pub enum Os {
    MacOs,
    Windows,
    Linux,
    Other,
}

/// The processor architecture.
#[derive(Debug, Clone, Copy, PartialEq, Eq, Structural)]
pub enum Arch {
    Aarch64,
    X86_64,
    Other,
}

/// A directory that only the running application knows, or a path given as text.
#[derive(Debug, Clone, PartialEq, Eq)]
pub enum Root<T = String> {
    /// The data directory of the application.
    Data,
    /// The directory of the running executable.
    Executable,
    /// The directory for temporary files.
    Temporary,
    /// The directory that holds the models.
    Models,
    /// The entry of the search path with this index.
    SearchPath(usize),
    /// A path given as text.
    Given(T),
}

/// A file or a directory: `parts`, joined one after the other to `root`.
#[derive(Debug, Clone, PartialEq, Eq)]
pub struct Place {
    pub root: Root,
    pub parts: Vec<String>,
}

/// What a [`Place`] denotes.
#[verifier::ext_equal]
pub struct PlaceView {
    pub root: Root<Seq<char>>,
    pub parts: Seq<Seq<char>>,
}

impl View for Root {
    type V = Root<Seq<char>>;

    open spec fn view(&self) -> Root<Seq<char>> {
        match *self {
            Root::Data => Root::Data,
            Root::Executable => Root::Executable,
            Root::Temporary => Root::Temporary,
            Root::Models => Root::Models,
            Root::SearchPath(i) => Root::SearchPath(i),
            Root::Given(s) => Root::Given(s@),
        }
    }
}

impl View for Place {
    type V = PlaceView;

    open spec fn view(&self) -> PlaceView {
        PlaceView { root: self.root@, parts: crate::text::texts(self.parts@) }
    }
}

/// The place `a` below `root`.
pub fn below1(root: Root, a: &str) -> (p: Place)
    ensures
        p@ == (PlaceView { root: root@, parts: seq![a@] }),
{
    let p = Place { root, parts: vec![a.to_string()] };
    assert(p@.parts == seq![a@]);
    p
}

/// The place `a`, `b` below `root`.
pub fn below2(root: Root, a: &str, b: &str) -> (p: Place)
    ensures
        p@ == (PlaceView { root: root@, parts: seq![a@, b@] }),
{
    let p = Place { root, parts: vec![a.to_string(), b.to_string()] };
    assert(p@.parts == seq![a@, b@]);
    p
}

/// The place `a`, `b`, `c` below `root`.
pub fn below3(root: Root, a: &str, b: &str, c: &str) -> (p: Place)
    ensures
        p@ == (PlaceView { root: root@, parts: seq![a@, b@, c@] }),
{
    let p = Place { root, parts: vec![a.to_string(), b.to_string(), c.to_string()] };
    assert(p@.parts == seq![a@, b@, c@]);
    p
}

/// The place `a`, `b`, `c`, `d` below `root`.
pub fn below4(root: Root, a: &str, b: &str, c: &str, d: &str) -> (p: Place)
    ensures
        p@ == (PlaceView { root: root@, parts: seq![a@, b@, c@, d@] }),
{
    let p = Place {
        root,
        parts: vec![a.to_string(), b.to_string(), c.to_string(), d.to_string()],
    };
    assert(p@.parts == seq![a@, b@, c@, d@]);
    p
}

/// The path `path` itself.
pub fn given(path: &str) -> (p: Place)
    ensures
        p@ == (PlaceView { root: Root::Given(path@), parts: Seq::empty() }),
{
    let p = Place { root: Root::Given(path.to_string()), parts: Vec::new() };
    assert(p@.parts == Seq::<Seq<char>>::empty());
    p
}

}

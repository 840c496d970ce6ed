//! Paths of the depot's file system, as lists of names.
use vstd::prelude::*;
use vstd::string::*;

verus! {

/// What a `DepotPath` names.
#[verifier::ext_equal]
pub ghost struct PathView {
    pub absolute: bool,
    pub parts: Seq<Seq<char>>,
}

/// The names, with a slash between each two.
pub open spec fn joined(parts: Seq<Seq<char>>) -> Seq<char>
    decreases parts.len(),
{
    if parts.len() == 0 {
        Seq::empty()
    } else if parts.len() == 1 {
        parts[0]
    } else {
        joined(parts.drop_last()) + "/"@ + parts.last()
    }
}

impl PathView {
    /// The path in writing.
    pub open spec fn text(self) -> Seq<char> {
        if self.absolute {
            "/"@ + joined(self.parts)
        } else {
            joined(self.parts)
        }
    }

    /// The path without its last name.
    pub open spec fn parent(self) -> PathView {
        if self.parts.len() > 0 {
            PathView { parts: self.parts.drop_last(), ..self }
        } else {
            self
        }
    }

    /// The path of a name below this one.
    pub open spec fn join(self, name: Seq<char>) -> PathView {
        PathView { parts: self.parts.push(name), ..self }
    }
}

/// A path: names from the outermost to the innermost, from the root or from where one is.
#[derive(Debug)]
pub struct DepotPath {
    pub absolute: bool,
    pub parts: Vec<String>,
}

impl View for DepotPath {
    type V = PathView;

    open spec fn view(&self) -> PathView {
        PathView {
            absolute: self.absolute,
            parts: self.parts@.map_values(|part: String| part@),
        }
    }
}

impl DepotPath {
    /// A copy of the path.
    pub fn copy(&self) -> (path: DepotPath)
        ensures
            path@ == self@,
    {
        let mut parts: Vec<String> = Vec::new();
        for i in 0..self.parts.len()
            invariant
                parts@ =~= self.parts@.take(i as int),
        {
            parts.push(self.parts[i].clone());
        }
        assert(parts@ =~= self.parts@);
        DepotPath { absolute: self.absolute, parts }
    }

    /// Takes the last name off, if there is one.
    pub fn pop(&mut self)
        ensures
            final(self)@ == old(self)@.parent(),
    {
        let ghost before = self.parts@;
        self.parts.pop();
        proof {
            if before.len() > 0 {
                assert(self@.parts =~= old(self)@.parts.drop_last());
            } else {
                assert(self@.parts =~= old(self)@.parts);
            }
        }
    }

    /// Puts a name behind the last one.
    pub fn push(&mut self, name: String)
        ensures
            final(self)@ == old(self)@.join(name@),
    {
        self.parts.push(name);
        assert(self@.parts =~= old(self)@.parts.push(name@));
    }

    /// The path in writing.
    pub fn text(&self) -> (text: String)
        ensures
            text@ == self@.text(),
    {
        let mut text = String::new();
        for i in 0..self.parts.len()
            invariant
                text@ == joined(self@.parts.take(i as int)),
        {
            let ghost next = self@.parts.take(i + 1);
            assert(next.drop_last() =~= self@.parts.take(i as int));
            if i > 0 {
                text.append("/");
            }
            text.append(self.parts[i].as_str());
            proof {
                if i == 0 {
                    assert(text@ =~= next[0]);
                } else {
                    assert(next.last() == self.parts@[i as int]@);
                }
            }
        }
        assert(self@.parts.take(self.parts@.len() as int) =~= self@.parts);
        if self.absolute {
            let mut whole = "/".to_owned();
            whole.append(text.as_str());
            whole
        } else {
            text
        }
    }
}

/// A path is written as its names with a slash between each two, and with one before them all
/// where it begins at the root.
pub proof fn law_path_text(p: PathView, name: Seq<char>)
    ensures
        (PathView { absolute: false, parts: Seq::empty() }).text() == Seq::<char>::empty(),
        (PathView { absolute: true, parts: Seq::empty() }).text() == "/"@,
        (PathView { absolute: false, parts: seq![name] }).text() == name,
        (PathView { absolute: true, ..p }).text() == "/"@ + (PathView {
            absolute: false,
            ..p
        }).text(),
        p.parts.len() > 0 ==> p.join(name).text() == p.text() + "/"@ + name,
{
    assert(p.join(name).parts.drop_last() =~= p.parts);
    assert("/"@ + Seq::<char>::empty() =~= "/"@);
    assert(p.parts.len() > 0 ==> p.join(name).text() =~= p.text() + "/"@ + name);
}

/// A name put behind a path is its last one, and taking it off again gives the path.
pub proof fn law_path_parts(p: PathView, name: Seq<char>)
    ensures
        p.join(name).absolute == p.absolute,
        p.join(name).parts == p.parts.push(name),
        p.join(name).parent() == p,
        p.parent().absolute == p.absolute,
        p.parts.len() > 0 ==> p.parent().parts == p.parts.drop_last(),
        p.parts.len() == 0 ==> p.parent() == p,
{
    assert(p.join(name).parent() =~= p);
}

/// A path is seen as the names that it holds, in order.
pub proof fn law_path_is_seen(p: DepotPath)
    ensures
        p@.absolute == p.absolute,
        p@.parts.len() == p.parts@.len(),
        forall|i: int| 0 <= i < p.parts@.len() ==> #[trigger] p@.parts[i] == p.parts@[i]@,
{
}

} // verus!

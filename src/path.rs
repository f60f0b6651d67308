use vstd::prelude::*;

verus! {

/// What a path is: the root it hangs from (`/`, or a volume root such as
/// `C:\`) and the names below that root, outermost first.
pub struct PathView {
    pub root: Seq<char>,
    pub parts: Seq<Seq<char>>,
}

/// An absolute path, kept as its root and its components.
#[derive(Clone, Debug, PartialEq, Eq)]
pub struct EntryPath {
    pub root: String,
    pub parts: Vec<String>,
}

impl View for EntryPath {
    type V = PathView;

    open spec fn view(&self) -> PathView {
        PathView { root: self.root@, parts: self.parts@.map_values(|p: String| p@) }
    }
}

/// A volume root: an upper-case ASCII letter, a colon and a backslash.
pub open spec fn spec_is_drive_root(s: Seq<char>) -> bool {
    &&& s.len() == 3
    &&& 'A' <= s[0] <= 'Z'
    &&& s[1] == ':'
    &&& s[2] == '\\'
}

/// The separators that split a typed path into components.
pub open spec fn is_separator(c: char) -> bool {
    c == '/' || c == '\\'
}

/// The characters after the last separator of `s`: the component being typed.
pub open spec fn pending(s: Seq<char>) -> Seq<char>
    decreases s.len(),
{
    if s.len() == 0 {
        seq![]
    } else if is_separator(s.last()) {
        seq![]
    } else {
        pending(s.drop_last()).push(s.last())
    }
}

/// The non-empty components of `s` that a separator has closed.
pub open spec fn finished(s: Seq<char>) -> Seq<Seq<char>>
    decreases s.len(),
{
    if s.len() == 0 {
        seq![]
    } else if is_separator(s.last()) && pending(s.drop_last()).len() > 0 {
        finished(s.drop_last()).push(pending(s.drop_last()))
    } else {
        finished(s.drop_last())
    }
}

/// The non-empty components of `s`, in order; runs of separators count as one.
pub open spec fn segments(s: Seq<char>) -> Seq<Seq<char>> {
    if pending(s).len() > 0 {
        finished(s).push(pending(s))
    } else {
        finished(s)
    }
}

/// The components joined by `/`.
pub open spec fn join_parts(parts: Seq<Seq<char>>) -> Seq<char>
    decreases parts.len(),
{
    if parts.len() == 0 {
        seq![]
    } else if parts.len() == 1 {
        parts[0]
    } else {
        join_parts(parts.drop_last()) + seq!['/'] + parts.last()
    }
}

/// The text of a path: its root, then its components separated by `/`.
pub open spec fn spec_text(p: PathView) -> Seq<char> {
    p.root + join_parts(p.parts)
}

/// The path that a typed text names: `/` or a volume root, then components.
pub open spec fn spec_parse(t: Seq<char>) -> Option<PathView> {
    if t.len() > 0 && t[0] == '/' {
        Some(PathView { root: seq!['/'], parts: segments(t.drop_first()) })
    } else if t.len() >= 3 && spec_is_drive_root(t.take(3)) {
        Some(PathView { root: t.take(3), parts: segments(t.skip(3)) })
    } else {
        None
    }
}

/// The name shown for a path: its last component, the root itself for a
/// volume root, and nothing for `/`.
pub open spec fn spec_display_name(p: PathView) -> Seq<char> {
    if p.parts.len() > 0 {
        p.parts.last()
    } else if spec_is_drive_root(p.root) {
        p.root
    } else {
        seq![]
    }
}

/// The components of `text` from the character `from` on.
pub fn split_components(text: &str, from: usize) -> (r: Vec<String>)
    requires
        from <= text@.len(),
    ensures
        r@.map_values(|p: String| p@) == segments(text@.skip(from as int)),
{
    let ghost s = text@.skip(from as int);
    let n = text.unicode_len();
    let mut acc: Vec<String> = Vec::new();
    let mut start: usize = from;
    let mut i: usize = from;
    while i < n
        invariant
            n == text@.len(),
            s == text@.skip(from as int),
            from <= start <= i <= n,
            acc@.map_values(|p: String| p@) == finished(s.take(i - from)),
            text@.subrange(start as int, i as int) == pending(s.take(i - from)),
        decreases n - i,
    {
        let c = text.get_char(i);
        let ghost before = s.take(i - from);
        let ghost after = s.take(i + 1 - from);
        proof {
            assert(after.drop_last() =~= before);
            assert(after.last() == c);
        }
        if c == '/' || c == '\\' {
            if start < i {
                let piece = String::from_str(text.substring_char(start, i));
                acc.push(piece);
                proof {
                    assert(acc@.map_values(|p: String| p@) =~= finished(before).push(
                        pending(before),
                    ));
                }
            }
            start = i + 1;
            proof {
                assert(text@.subrange(start as int, start as int) =~= pending(after));
            }
        } else {
            proof {
                assert(text@.subrange(start as int, i + 1) =~= pending(before).push(c));
            }
        }
        i = i + 1;
    }
    proof {
        assert(s.take(n - from) =~= s);
    }
    if start < n {
        let piece = String::from_str(text.substring_char(start, n));
        acc.push(piece);
        proof {
            assert(acc@.map_values(|p: String| p@) =~= finished(s).push(pending(s)));
        }
    }
    acc
}

/// Reads the path that a typed text names; `None` unless it starts at a root.
pub fn parse_path(text: &str) -> (r: Option<EntryPath>)
    ensures
        r matches Some(p) ==> spec_parse(text@) == Some(p@),
        r is None ==> spec_parse(text@) is None,
{
    let n = text.unicode_len();
    if n > 0 && text.get_char(0) == '/' {
        let parts = split_components(text, 1);
        let root = String::from_str(text.substring_char(0, 1));
        proof {
            assert(root@ =~= seq!['/']);
            assert(text@.drop_first() =~= text@.skip(1));
        }
        return Some(EntryPath { root, parts });
    }
    if n >= 3 {
        let head = text.substring_char(0, 3);
        if is_drive_root(head) {
            let parts = split_components(text, 3);
            proof {
                assert(head@ =~= text@.take(3));
            }
            return Some(EntryPath { root: String::from_str(head), parts });
        }
        proof {
            assert(head@ =~= text@.take(3));
        }
    }
    None
}

/// Whether the text names a volume root such as `C:\`.
pub fn is_drive_root(path: &str) -> (r: bool)
    ensures
        r == spec_is_drive_root(path@),
{
    if path.unicode_len() != 3 {
        return false;
    }
    let letter = path.get_char(0);
    let colon = path.get_char(1);
    let slash = path.get_char(2);
    'A' <= letter && letter <= 'Z' && colon == ':' && slash == '\\'
}

/// A copy of a list of names.
fn copy_names(names: &Vec<String>) -> (r: Vec<String>)
    ensures
        r@ == names@,
{
    let mut r: Vec<String> = Vec::new();
    let mut i: usize = 0;
    while i < names.len()
        invariant
            i <= names.len(),
            r@ == names@.take(i as int),
        decreases names.len() - i,
    {
        r.push(names[i].clone());
        i = i + 1;
    }
    assert(r@ == names@.take(names.len() as int));
    assert(names@.take(names.len() as int) =~= names@);
    r
}

impl EntryPath {
    /// The path made of the root alone.
    pub fn from_root(root: &str) -> (r: EntryPath)
        ensures
            r@.root == root@,
            r@.parts == Seq::<Seq<char>>::empty(),
    {
        let r = EntryPath { root: String::from_str(root), parts: Vec::new() };
        assert(r@.parts =~= Seq::<Seq<char>>::empty());
        r
    }

    /// The path of the file system root `/`.
    pub fn unix_root() -> (r: EntryPath)
        ensures
            r@.root == seq!['/'],
            r@.parts == Seq::<Seq<char>>::empty(),
    {
        proof {
            reveal_strlit("/");
        }
        EntryPath::from_root("/")
    }

    /// An equal path.
    pub fn duplicate(&self) -> (r: EntryPath)
        ensures
            r@ == self@,
    {
        let parts = copy_names(&self.parts);
        proof {
            assert(parts@ =~= self.parts@);
        }
        EntryPath { root: self.root.clone(), parts }
    }

    /// Whether both paths have the same root and the same components.
    pub fn same_as(&self, other: &EntryPath) -> (r: bool)
        ensures
            r == (self@ == other@),
    {
        if self.root != other.root {
            return false;
        }
        if self.parts.len() != other.parts.len() {
            proof {
                assert(self@.parts.len() != other@.parts.len());
            }
            return false;
        }
        let mut i: usize = 0;
        while i < self.parts.len()
            invariant
                i <= self.parts.len(),
                self.parts.len() == other.parts.len(),
                forall|k: int| 0 <= k < i ==> self.parts@[k]@ == other.parts@[k]@,
            decreases self.parts.len() - i,
        {
            if self.parts[i] != other.parts[i] {
                proof {
                    assert(self@.parts[i as int] != other@.parts[i as int]);
                }
                return false;
            }
            i = i + 1;
        }
        proof {
            assert(self@.parts =~= other@.parts);
        }
        true
    }

    /// Whether the path has a parent, that is whether it is more than its root.
    pub fn has_parent(&self) -> (r: bool)
        ensures
            r == (self@.parts.len() > 0),
    {
        self.parts.len() > 0
    }

    /// Drops the last component; `false`, and no change, where there is none.
    pub fn pop(&mut self) -> (r: bool)
        ensures
            r == (old(self)@.parts.len() > 0),
            final(self)@.root == old(self)@.root,
            final(self)@.parts == if r {
                old(self)@.parts.drop_last()
            } else {
                old(self)@.parts
            },
    {
        if self.parts.len() == 0 {
            return false;
        }
        self.parts.pop();
        proof {
            assert(final(self)@.parts =~= old(self)@.parts.drop_last());
        }
        true
    }

    /// The path of the entry `name` inside this directory.
    pub fn join(&self, name: &str) -> (r: EntryPath)
        ensures
            r@.root == self@.root,
            r@.parts == self@.parts.push(name@),
    {
        let mut r = self.duplicate();
        r.parts.push(String::from_str(name));
        proof {
            assert(r@.parts =~= self@.parts.push(name@));
        }
        r
    }

    /// The name shown for the path: its last component, or the root itself
    /// for a volume root.
    pub fn display_name(&self) -> (r: &str)
        ensures
            r@ == spec_display_name(self@),
    {
        let n = self.parts.len();
        if n > 0 {
            self.parts[n - 1].as_str()
        } else if is_drive_root(self.root.as_str()) {
            self.root.as_str()
        } else {
            proof {
                reveal_strlit("");
            }
            ""
        }
    }

    /// The path as text: the root, then the components separated by `/`.
    pub fn to_text(&self) -> (r: String)
        ensures
            r@ == spec_text(self@),
    {
        let mut body = String::new();
        let mut i: usize = 0;
        while i < self.parts.len()
            invariant
                i <= self.parts.len(),
                body@ == join_parts(self@.parts.take(i as int)),
            decreases self.parts.len() - i,
        {
            proof {
                let t = self@.parts.take(i + 1);
                assert(t.drop_last() =~= self@.parts.take(i as int));
            }
            if i > 0 {
                body.append("/");
                proof {
                    reveal_strlit("/");
                }
            }
            body.append(self.parts[i].as_str());
            proof {
                if i == 0 {
                    assert(body@ =~= join_parts(self@.parts.take(1)));
                }
            }
            i = i + 1;
        }
        proof {
            assert(self@.parts.take(self.parts.len() as int) =~= self@.parts);
        }
        let mut r = self.root.clone();
        r.append(body.as_str());
        r
    }

    /// The path of a sibling named `name`: the last component replaced.
    pub fn with_file_name(&self, name: &str) -> (r: EntryPath)
        ensures
            r@.root == self@.root,
            r@.parts == if self@.parts.len() > 0 {
                self@.parts.drop_last().push(name@)
            } else {
                self@.parts.push(name@)
            },
    {
        let mut r = self.duplicate();
        r.pop();
        r.join(name)
    }
}

} // verus!

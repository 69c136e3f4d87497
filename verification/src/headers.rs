//! The header set: a case-sensitive mapping from header name to header
//! value, with last-write-wins semantics on duplicate names.
//!
//! Entries are held in a vector with no name occurring twice; the mapping
//! the entries denote is the abstraction that contracts speak of.

use vstd::prelude::*;
use vstd::string::*;

verus! {

/// The mapping a sequence of (name, value) entries denotes: later
/// entries win.
pub open spec fn spec_header_map(s: Seq<(Seq<char>, Seq<char>)>) -> Map<Seq<char>, Seq<char>>
    decreases s.len(),
{
    if s.len() == 0 {
        Map::empty()
    } else {
        spec_header_map(s.drop_last()).insert(s.last().0, s.last().1)
    }
}

/// No header name occurs twice among the entries.
pub open spec fn unique_names(s: Seq<(Seq<char>, Seq<char>)>) -> bool {
    forall|i: int, j: int| 0 <= i < j < s.len() ==> s[i].0 != s[j].0
}

/// A name is in the denoted mapping exactly when some entry carries it.
pub proof fn lemma_header_map_contains(s: Seq<(Seq<char>, Seq<char>)>, k: Seq<char>)
    ensures
        spec_header_map(s).contains_key(k) <==> exists|i: int| 0 <= i < s.len() && s[i].0 == k,
    decreases s.len(),
{
    if s.len() > 0 {
        lemma_header_map_contains(s.drop_last(), k);
        if s.last().0 == k {
            assert(s[s.len() - 1].0 == k);
        } else if spec_header_map(s).contains_key(k) {
            let i = choose|i: int| 0 <= i < s.drop_last().len() && s.drop_last()[i].0 == k;
            assert(s[i].0 == k);
        } else if exists|i: int| 0 <= i < s.len() && s[i].0 == k {
            let i = choose|i: int| 0 <= i < s.len() && s[i].0 == k;
            assert(s.drop_last()[i].0 == k);
        }
    }
}

/// Under unique names, the mapping sends each entry's name to its value.
pub proof fn lemma_header_map_value(s: Seq<(Seq<char>, Seq<char>)>, i: int)
    requires
        unique_names(s),
        0 <= i < s.len(),
    ensures
        spec_header_map(s).contains_key(s[i].0),
        spec_header_map(s)[s[i].0] == s[i].1,
    decreases s.len(),
{
    lemma_header_map_contains(s, s[i].0);
    if i == s.len() - 1 {
    } else {
        assert(unique_names(s.drop_last()));
        assert(s.drop_last()[i] == s[i]);
        lemma_header_map_value(s.drop_last(), i);
        assert(s.last().0 != s[i].0);
    }
}

/// Under unique names, overwriting the entry that carries `k` updates
/// the denoted mapping at `k` alone.
pub proof fn lemma_header_map_update(s: Seq<(Seq<char>, Seq<char>)>, i: int, v: Seq<char>)
    requires
        unique_names(s),
        0 <= i < s.len(),
    ensures
        spec_header_map(s.update(i, (s[i].0, v))) == spec_header_map(s).insert(s[i].0, v),
    decreases s.len(),
{
    let k = s[i].0;
    let t = s.update(i, (k, v));
    if i == s.len() - 1 {
        assert(t.drop_last() =~= s.drop_last());
        assert(t.last() == (k, v));
        assert(spec_header_map(t) =~= spec_header_map(s).insert(k, v));
    } else {
        assert(unique_names(s.drop_last()));
        assert(s.drop_last()[i] == s[i]);
        lemma_header_map_update(s.drop_last(), i, v);
        assert(t.drop_last() =~= s.drop_last().update(i, (k, v)));
        assert(t.last() == s.last());
        assert(s.last().0 != k);
        assert(spec_header_map(t) =~= spec_header_map(s).insert(k, v));
    }
}

/// The wire text of one header entry: `name: value`.
pub open spec fn header_line_text(e: (Seq<char>, Seq<char>)) -> Seq<char> {
    e.0 + ": "@ + e.1
}

/// The wire text of a header section: the entries' lines joined by
/// CRLF, in entry order, with no trailing separator.
pub open spec fn spec_render_headers(s: Seq<(Seq<char>, Seq<char>)>) -> Seq<char>
    decreases s.len(),
{
    if s.len() == 0 {
        Seq::empty()
    } else if s.len() == 1 {
        header_line_text(s[0])
    } else {
        header_line_text(s[0]) + "\r\n"@ + spec_render_headers(s.drop_first())
    }
}

/// What is still to be rendered once the first `i` entries are done:
/// the separator before the next line, then the rest of the section.
pub open spec fn header_tail_text(s: Seq<(Seq<char>, Seq<char>)>, i: int) -> Seq<char> {
    if i == 0 {
        spec_render_headers(s)
    } else if i < s.len() {
        "\r\n"@ + spec_render_headers(s.skip(i))
    } else {
        Seq::empty()
    }
}

/// The header set of a request or response.  Names are case-sensitive;
/// inserting a name again replaces its value in place.
#[derive(Debug, Clone, PartialEq, Eq)]
pub struct Headers {
    entries: Vec<(String, String)>,
}

impl View for Headers {
    type V = Seq<(Seq<char>, Seq<char>)>;

    closed spec fn view(&self) -> Seq<(Seq<char>, Seq<char>)> {
        self.entries.deep_view()
    }
}

impl Headers {
    /// The mapping these headers denote.
    pub open spec fn as_map(&self) -> Map<Seq<char>, Seq<char>> {
        spec_header_map(self@)
    }

    /// Well-formed: no name occurs twice.  Constructors establish this
    /// and every method preserves it.
    pub open spec fn wf(&self) -> bool {
        unique_names(self@)
    }

    /// An empty header set.
    pub fn new() -> (r: Headers)
        ensures
            r.wf(),
            r@ == Seq::<(Seq<char>, Seq<char>)>::empty(),
            r.as_map() == Map::<Seq<char>, Seq<char>>::empty(),
    {
        let r = Headers { entries: Vec::new() };
        proof {
            assert(r@ =~= Seq::<(Seq<char>, Seq<char>)>::empty());
        }
        r
    }

    /// How many headers are set.
    pub fn len(&self) -> (r: usize)
        ensures
            r == self@.len(),
    {
        self.entries.len()
    }

    /// Sets `name` to `value`, overwriting any earlier value for the
    /// same name.
    pub fn insert(&mut self, name: String, value: String)
        requires
            old(self).wf(),
        ensures
            final(self).wf(),
            final(self).as_map() == old(self).as_map().insert(name@, value@),
            !old(self).as_map().contains_key(name@) ==> final(self)@ == old(self)@.push(
                (name@, value@),
            ),
    {
        let n = self.entries.len();
        let mut i: usize = 0;
        while i < n
            invariant
                i <= n,
                n == self@.len(),
                self@ == old(self)@,
                unique_names(self@),
                forall|j: int| 0 <= j < i ==> self@[j].0 != name@,
            decreases n - i,
        {
            proof {
                assert(self@[i as int] == (self.entries@[i as int].0@,
                self.entries@[i as int].1@));
            }
            if name == self.entries[i].0 {
                let ghost old_entries = self@;
                proof {
                    assert(name@ == old_entries[i as int].0);
                }
                self.entries[i] = (name, value);
                proof {
                    assert(self@ =~= old_entries.update(i as int, (old_entries[i as int].0, value@)));
                    lemma_header_map_update(old_entries, i as int, value@);
                    assert(forall|j: int|
                        0 <= j < self@.len() ==> self@[j].0 == old_entries[j].0);
                    lemma_header_map_contains(old_entries, name@);
                    assert(old_entries[i as int].0 == name@);
                }
                return ;
            }
            i += 1;
        }
        let ghost old_entries = self@;
        self.entries.push((name, value));
        proof {
            assert(self@ =~= old_entries.push((name@, value@)));
            assert(self@.drop_last() =~= old_entries);
            assert(spec_header_map(self@) == spec_header_map(old_entries).insert(name@, value@));
            lemma_header_map_contains(old_entries, name@);
            assert(forall|j: int| 0 <= j < old_entries.len() ==> self@[j] == old_entries[j]);
        }
    }

    /// The wire text of this header section.
    pub fn render(&self) -> (r: String)
        ensures
            r@ == spec_render_headers(self@),
    {
        let mut out = String::new();
        let n = self.entries.len();
        let mut i: usize = 0;
        proof {
            assert(out@ + header_tail_text(self@, 0) =~= spec_render_headers(self@));
        }
        while i < n
            invariant
                i <= n,
                n == self@.len(),
                spec_render_headers(self@) == out@ + header_tail_text(self@, i as int),
            decreases n - i,
        {
            let ghost s = self@;
            let ghost before = out@;
            proof {
                assert(s[i as int] == (self.entries@[i as int].0@, self.entries@[i as int].1@));
            }
            if i > 0 {
                out.append("\r\n");
            }
            out.append(self.entries[i].0.as_str());
            out.append(": ");
            out.append(self.entries[i].1.as_str());
            proof {
                let line = header_line_text(s[i as int]);
                if i == 0 {
                    assert(out@ =~= before + line);
                } else {
                    assert(out@ =~= before + "\r\n"@ + line);
                }
                if i < n - 1 {
                    assert(s.skip(i as int)[0] == s[i as int]);
                    assert(s.skip(i as int).drop_first() =~= s.skip(i as int + 1));
                    assert(spec_render_headers(s.skip(i as int)) == line + "\r\n"@
                        + spec_render_headers(s.skip(i as int + 1)));
                    if i == 0 {
                        assert(s.skip(0) =~= s);
                        assert(spec_render_headers(s) == line + "\r\n"@ + spec_render_headers(
                            s.skip(1)));
                    }
                    assert(spec_render_headers(s) =~= out@ + header_tail_text(s, i as int + 1));
                } else {
                    assert(s.skip(i as int).len() == 1);
                    assert(s.skip(i as int)[0] == s[i as int]);
                    assert(spec_render_headers(s.skip(i as int)) == line);
                    if i == 0 {
                        assert(s.skip(0) =~= s);
                    }
                    assert(spec_render_headers(s) =~= out@ + header_tail_text(s, i as int + 1));
                }
            }
            i += 1;
        }
        out
    }

    /// The value set for `name`, if any.
    pub fn get(&self, name: &str) -> (r: Option<&String>)
        requires
            self.wf(),
        ensures
            match r {
                Some(v) => self.as_map().contains_key(name@) && self.as_map()[name@] == v@,
                None => !self.as_map().contains_key(name@),
            },
    {
        let n = self.entries.len();
        let mut i: usize = 0;
        while i < n
            invariant
                i <= n,
                n == self@.len(),
                self.wf(),
                forall|j: int| 0 <= j < i ==> self@[j].0 != name@,
            decreases n - i,
        {
            proof {
                assert(self@[i as int] == (self.entries@[i as int].0@,
                self.entries@[i as int].1@));
            }
            let nm = String::from_str(name);
            if self.entries[i].0 == nm {
                proof {
                    lemma_header_map_value(self@, i as int);
                }
                return Some(&self.entries[i].1);
            }
            i += 1;
        }
        proof {
            lemma_header_map_contains(self@, name@);
        }
        None
    }
}

} // verus!

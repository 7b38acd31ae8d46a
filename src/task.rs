use vstd::prelude::*;
use vstd::string::StringSliceAdditionalSpecFns;

verus! {

/// The closed set of task variants. Each one is stored by a stable
/// identifier (see `Task::to_str`).
#[derive(Debug, Clone, Copy, PartialEq, Eq, Structural)]
pub enum Task {
    Foo,
    Bar,
    Baz,
}

/// The characters of a variant's stored identifier.
pub open spec fn task_name(t: Task) -> Seq<char> {
    match t {
        Task::Foo => seq!['f', 'o', 'o'],
        Task::Bar => seq!['b', 'a', 'r'],
        Task::Baz => seq!['b', 'a', 'z'],
    }
}

/// Whether `s` is the identifier of some variant.
pub open spec fn is_task_name(s: Seq<char>) -> bool {
    s == task_name(Task::Foo) || s == task_name(Task::Bar) || s == task_name(Task::Baz)
}

/// `a` and `b` hold the same bytes.
fn bytes_eq(a: &[u8], b: &[u8]) -> (r: bool)
    ensures
        r == (a@ == b@),
{
    if a.len() != b.len() {
        return false;
    }
    let mut i: usize = 0;
    while i < a.len()
        invariant
            a@.len() == b@.len(),
            i <= a@.len(),
            a@.subrange(0, i as int) == b@.subrange(0, i as int),
        decreases a@.len() - i,
    {
        if a[i] != b[i] {
            assert(a@[i as int] != b@[i as int]);
            return false;
        }
        assert(a@.subrange(0, i + 1) == a@.subrange(0, i as int).push(a@[i as int]));
        assert(b@.subrange(0, i + 1) == b@.subrange(0, i as int).push(b@[i as int]));
        i = i + 1;
    }
    assert(a@ == a@.subrange(0, a@.len() as int));
    assert(b@ == b@.subrange(0, b@.len() as int));
    true
}

/// Two strings with the same UTF-8 bytes are the same string.
proof fn lemma_same_bytes_same_chars(s: &str, t: &str)
    requires
        s.spec_bytes() == t.spec_bytes(),
    ensures
        s@ == t@,
{
    vstd::utf8::encode_utf8_decode_utf8(s@);
    vstd::utf8::encode_utf8_decode_utf8(t@);
}

impl Task {
    /// The variant's stored identifier.
    pub fn to_str(&self) -> (r: &'static str)
        ensures
            r@ == task_name(*self),
    {
        proof {
            reveal_strlit("foo");
            reveal_strlit("bar");
            reveal_strlit("baz");
        }
        match self {
            Task::Foo => "foo",
            Task::Bar => "bar",
            Task::Baz => "baz",
        }
    }

    /// Resolves a stored identifier to its variant, or `None` where `s`
    /// names no variant.
    pub fn parse(s: &str) -> (r: Option<Task>)
        ensures
            r is None <==> !is_task_name(s@),
            r matches Some(t) ==> task_name(t) == s@,
    {
        let b = s.as_bytes();
        let foo = Task::Foo.to_str();
        let bar = Task::Bar.to_str();
        let baz = Task::Baz.to_str();
        if bytes_eq(b, foo.as_bytes()) {
            proof { lemma_same_bytes_same_chars(s, foo); }
            Some(Task::Foo)
        } else if bytes_eq(b, bar.as_bytes()) {
            proof { lemma_same_bytes_same_chars(s, bar); }
            Some(Task::Bar)
        } else if bytes_eq(b, baz.as_bytes()) {
            proof { lemma_same_bytes_same_chars(s, baz); }
            Some(Task::Baz)
        } else {
            proof {
                if s@ == foo@ {
                    assert(s.spec_bytes() == foo.spec_bytes());
                } else if s@ == bar@ {
                    assert(s.spec_bytes() == bar.spec_bytes());
                } else if s@ == baz@ {
                    assert(s.spec_bytes() == baz.spec_bytes());
                }
            }
            None
        }
    }

    /// Resolves a stored identifier to its variant. An identifier that names
    /// no variant means a corrupted record, which callers must rule out
    /// (with `Task::parse`) before calling.
    pub fn from_str(s: &str) -> (r: Task)
        requires
            is_task_name(s@),
        ensures
            task_name(r) == s@,
    {
        match Task::parse(s) {
            Some(t) => t,
            None => Task::Foo,
        }
    }
}

} // verus!

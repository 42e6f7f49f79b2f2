//! Character classes of the text notation, and runs of one class at the front
//! of a text.

use vstd::prelude::*;

verus! {

/// The classes of characters that the text notation tells apart.
#[derive(Clone, Copy, Debug)]
pub enum CharClass {
    /// A space or a tab.
    Space,
    /// A space, a tab, a carriage return or a line feed.
    Blank,
    /// Anything but a carriage return or a line feed.
    Inline,
    /// Anything but a space, a tab, a carriage return or a line feed.
    Solid,
}

impl CharClass {
    /// Whether `c` belongs to the class.
    pub open spec fn holds(self, c: char) -> bool {
        match self {
            CharClass::Space => c == ' ' || c == '\t',
            CharClass::Blank => c == ' ' || c == '\t' || c == '\r' || c == '\n',
            CharClass::Inline => c != '\r' && c != '\n',
            CharClass::Solid => !(c == ' ' || c == '\t' || c == '\r' || c == '\n'),
        }
    }

    /// Whether `c` belongs to the class.
    pub fn has(&self, c: char) -> (b: bool)
        ensures
            b == self.holds(c),
    {
        match self {
            CharClass::Space => c == ' ' || c == '\t',
            CharClass::Blank => c == ' ' || c == '\t' || c == '\r' || c == '\n',
            CharClass::Inline => c != '\r' && c != '\n',
            CharClass::Solid => !(c == ' ' || c == '\t' || c == '\r' || c == '\n'),
        }
    }
}

/// The length of the longest prefix of `s` made of characters of `class`.
pub open spec fn run_len(s: Seq<char>, class: CharClass) -> nat
    decreases s.len(),
{
    if s.len() > 0 && class.holds(s[0]) {
        1 + run_len(s.drop_first(), class)
    } else {
        0
    }
}

/// Whether every character of `s` is of `class`.
pub open spec fn all_of(s: Seq<char>, class: CharClass) -> bool {
    forall|k: int| 0 <= k < s.len() ==> class.holds(#[trigger] s[k])
}

/// A run stays inside the text, holds only characters of its class, and ends
/// at the end of the text or before a character of another class.
pub proof fn lemma_run_len(s: Seq<char>, class: CharClass)
    ensures
        run_len(s, class) <= s.len(),
        all_of(s.take(run_len(s, class) as int), class),
        run_len(s, class) < s.len() ==> !class.holds(s[run_len(s, class) as int]),
    decreases s.len(),
{
    if s.len() > 0 && class.holds(s[0]) {
        let t = s.drop_first();
        lemma_run_len(t, class);
        let n = run_len(s, class);
        assert forall|k: int| 0 <= k < n implies class.holds(#[trigger] s.take(n as int)[k]) by {
            if k > 0 {
                assert(s.take(n as int)[k] == t.take(n - 1)[k - 1]);
            }
        }
    }
}

/// A prefix of characters of `class` that ends at the end of the text or
/// before a character of another class is the run.
pub proof fn lemma_run_len_is(s: Seq<char>, class: CharClass, n: nat)
    requires
        n <= s.len(),
        all_of(s.take(n as int), class),
        n < s.len() ==> !class.holds(s[n as int]),
    ensures
        run_len(s, class) == n,
    decreases n,
{
    if n > 0 {
        assert(s[0] == s.take(n as int)[0]);
        let t = s.drop_first();
        assert forall|k: int| 0 <= k < n - 1 implies class.holds(
            #[trigger] t.take(n - 1)[k],
        ) by {
            assert(t.take(n - 1)[k] == s.take(n as int)[k + 1]);
        }
        lemma_run_len_is(t, class, (n - 1) as nat);
    }
}

/// What follows a prefix of characters of `class` does not change how far the
/// run reaches into the prefix, once a character of another class follows it.
pub proof fn lemma_run_len_prefix(head: Seq<char>, tail: Seq<char>, class: CharClass)
    requires
        all_of(head, class),
        tail.len() == 0 || !class.holds(tail[0]),
    ensures
        run_len(head + tail, class) == head.len(),
{
    let s = head + tail;
    assert(s.take(head.len() as int) =~= head);
    if tail.len() > 0 {
        assert(s[head.len() as int] == tail[0]);
    }
    lemma_run_len_is(s, class, head.len());
}

/// Where the run of `class` that starts at `from` ends.
pub fn scan(chars: &Vec<char>, from: usize, class: CharClass) -> (end: usize)
    requires
        from <= chars.len(),
    ensures
        from <= end <= chars.len(),
        end == from + run_len(chars@.skip(from as int), class),
{
    let mut end: usize = from;
    while end < chars.len() && class.has(chars[end])
        invariant
            from <= end <= chars.len(),
            forall|k: int| from <= k < end ==> class.holds(#[trigger] chars@[k]),
        decreases chars.len() - end,
    {
        end += 1;
    }
    proof {
        let s = chars@.skip(from as int);
        let n = (end - from) as nat;
        assert forall|k: int| 0 <= k < n implies class.holds(#[trigger] s.take(n as int)[k]) by {
            assert(s.take(n as int)[k] == chars@[from + k]);
        }
        if n < s.len() {
            assert(s[n as int] == chars@[end as int]);
        }
        lemma_run_len_is(s, class, n);
    }
    end
}

/// The characters of a text, one by one.
pub fn chars_of(text: &str) -> (chars: Vec<char>)
    ensures
        chars@ == text@,
{
    let mut chars: Vec<char> = Vec::new();
    for c in it: text.chars()
        invariant
            chars@ == it.seq().take(it.index() as int),
    {
        chars.push(c);
    }
    chars
}

/// Whether every one of the characters is of `class`.
pub fn all_in(chars: &Vec<char>, class: CharClass) -> (b: bool)
    ensures
        b == all_of(chars@, class),
{
    let end = scan(chars, 0, class);
    proof {
        assert(chars@.skip(0) =~= chars@);
        lemma_run_len(chars@, class);
        if end == chars.len() {
            assert(chars@.take(end as int) =~= chars@);
        } else {
            assert(!class.holds(chars@[end as int]));
        }
    }
    end == chars.len()
}

} // verus!

//! The message log: every game message goes through `push`, which keeps a
//! bounded window of the newest lines; the message window shows the last few.
use vstd::prelude::*;
use crate::ids::texts;

verus! {

/// How many lines the log keeps.
pub const LOG_CAPACITY: usize = 256;

/// How many lines the message window shows.
pub const VISIBLE_LINES: usize = 4;

/// The newest [`LOG_CAPACITY`] lines of `s`.
pub open spec fn kept(s: Seq<Seq<char>>) -> Seq<Seq<char>> {
    if s.len() > LOG_CAPACITY {
        s.subrange(s.len() - LOG_CAPACITY, s.len() as int)
    } else {
        s
    }
}

/// Whether `needle` occurs in `hay`.
pub open spec fn has_text(hay: Seq<char>, needle: Seq<char>) -> bool {
    exists|i: int| 0 <= i && i + needle.len() <= hay.len() && #[trigger] hay.subrange(i, i + needle.len()) == needle
}

/// The window rows for log `s`: its last [`VISIBLE_LINES`] lines, oldest
/// first, with blank rows in front when there are fewer.
pub open spec fn window(s: Seq<Seq<char>>) -> Seq<Seq<char>> {
    let k = if s.len() < VISIBLE_LINES {
        s.len() as int
    } else {
        VISIBLE_LINES as int
    };
    Seq::new((VISIBLE_LINES - k) as nat, |i: int| Seq::<char>::empty()) + s.subrange(s.len() - k, s.len() as int)
}

/// A bounded log of message lines, oldest first.
pub struct MessageLog {
    lines: Vec<String>,
}

impl View for MessageLog {
    type V = Seq<Seq<char>>;

    closed spec fn view(&self) -> Seq<Seq<char>> {
        texts(self.lines@)
    }
}

/// Whether `needle` occurs in `hay` at char position `i`.
fn occurs_at(hay: &Vec<char>, needle: &Vec<char>, i: usize) -> (r: bool)
    requires
        i + needle@.len() <= hay@.len(),
    ensures
        r == (hay@.subrange(i as int, i + needle@.len()) == needle@),
{
    let mut j: usize = 0;
    while j < needle.len()
        invariant
            j <= needle@.len(),
            i + needle@.len() <= hay@.len(),
            forall|k: int| 0 <= k < j ==> hay@[i + k] == needle@[k],
        decreases needle@.len() - j,
    {
        let hl = hay.len();
        assert(i + j < hl);
        if hay[i + j] != needle[j] {
            assert(hay@.subrange(i as int, i + needle@.len())[j as int] != needle@[j as int]);
            return false;
        }
        j = j + 1;
    }
    assert(hay@.subrange(i as int, i + needle@.len()) =~= needle@);
    true
}

fn chars_of(s: &str) -> (r: Vec<char>)
    ensures
        r@ == s@,
{
    let n = s.unicode_len();
    let mut r: Vec<char> = Vec::new();
    let mut i: usize = 0;
    while i < n
        invariant
            n == s@.len(),
            i <= n,
            r@ == s@.take(i as int),
        decreases n - i,
    {
        r.push(s.get_char(i));
        assert(r@ =~= s@.take(i as int + 1));
        i = i + 1;
    }
    assert(r@ =~= s@);
    r
}

/// Whether `needle` occurs in `hay`.
pub fn text_contains(hay: &str, needle: &str) -> (r: bool)
    ensures
        r == has_text(hay@, needle@),
{
    let h = chars_of(hay);
    let n = chars_of(needle);
    if n.len() > h.len() {
        return false;
    }
    let last = h.len() - n.len();
    let mut i: usize = 0;
    loop
        invariant
            i <= last,
            h@ == hay@,
            n@ == needle@,
            last == h@.len() - n@.len(),
            forall|k: int| 0 <= k < i ==> #[trigger] h@.subrange(k, k + n@.len()) != n@,
        decreases last - i,
    {
        if occurs_at(&h, &n, i) {
            return true;
        }
        if i == last {
            return false;
        }
        i = i + 1;
    }
}

/// Pushing a line onto a log leaves at most [`LOG_CAPACITY`] lines, the
/// pushed line last; below the capacity nothing is dropped.
pub proof fn lemma_push_keeps_newest(s: Seq<Seq<char>>, t: Seq<char>)
    requires
        s.len() <= LOG_CAPACITY,
    ensures
        kept(s.push(t)).len() <= LOG_CAPACITY,
        kept(s.push(t)).last() == t,
        s.len() < LOG_CAPACITY ==> kept(s.push(t)) == s.push(t),
        s.len() == LOG_CAPACITY ==> kept(s.push(t)) == s.drop_first().push(t),
{
    if s.len() == LOG_CAPACITY {
        assert(kept(s.push(t)) =~= s.drop_first().push(t));
    }
}

impl MessageLog {
    /// The log holds at most [`LOG_CAPACITY`] lines.
    pub closed spec fn wf(&self) -> bool {
        self.lines@.len() <= LOG_CAPACITY
    }

    /// An empty log.
    pub fn new() -> (r: MessageLog)
        ensures
            r.wf(),
            r@ == Seq::<Seq<char>>::empty(),
    {
        let r = MessageLog { lines: Vec::new() };
        assert(r@ =~= Seq::<Seq<char>>::empty());
        r
    }

    /// Append one line, dropping the oldest past the capacity.
    pub fn push(&mut self, text: String)
        requires
            old(self).wf(),
        ensures
            final(self).wf(),
            final(self)@ == kept(old(self)@.push(text@)),
    {
        let ghost all = old(self)@.push(text@);
        self.lines.push(text);
        assert(self@ =~= all);
        while self.lines.len() > LOG_CAPACITY
            invariant
                self.lines@.len() <= LOG_CAPACITY + 1,
                all.len() <= LOG_CAPACITY + 1,
                self@ == (if self.lines@.len() == all.len() {
                    all
                } else {
                    kept(all)
                }),
            decreases self.lines@.len(),
        {
            self.lines.remove(0);
            assert(self@ =~= kept(all));
        }
    }

    /// Whether any retained line contains `needle`.
    pub fn contains(&self, needle: &str) -> (r: bool)
        ensures
            r == exists|i: int| 0 <= i < self@.len() && has_text(#[trigger] self@[i], needle@),
    {
        let mut i: usize = 0;
        while i < self.lines.len()
            invariant
                i <= self.lines@.len(),
                forall|k: int| 0 <= k < i ==> !has_text(#[trigger] self@[k], needle@),
            decreases self.lines@.len() - i,
        {
            if text_contains(self.lines[i].as_str(), needle) {
                assert(has_text(self@[i as int], needle@));
                return true;
            }
            i = i + 1;
        }
        false
    }

    /// The message window's rows (see [`window`]).
    pub fn visible(&self) -> (r: Vec<String>)
        ensures
            texts(r@) == window(self@),
    {
        let n = self.lines.len();
        let start = if n > VISIBLE_LINES {
            n - VISIBLE_LINES
        } else {
            0
        };
        let mut out: Vec<String> = Vec::new();
        let mut i = start;
        while i < n
            invariant
                start <= i <= n == self.lines@.len(),
                start == (if n > VISIBLE_LINES { n - VISIBLE_LINES } else { 0 }),
                texts(out@) == self@.subrange(start as int, i as int),
            decreases n - i,
        {
            let ghost before = out@;
            let line = self.lines[i].clone();
            out.push(line);
            assert(out@ == before.push(self.lines@[i as int]));
            assert(texts(out@) =~= texts(before).push(self@[i as int]));
            assert(texts(out@) =~= self@.subrange(start as int, i as int + 1));
            i = i + 1;
        }
        while out.len() < VISIBLE_LINES
            invariant
                out@.len() <= VISIBLE_LINES,
                n - start <= out@.len(),
                start == (if n > VISIBLE_LINES { n - VISIBLE_LINES } else { 0 }),
                n == self.lines@.len(),
                texts(out@) == Seq::new((out@.len() - (n - start)) as nat, |i: int| Seq::<char>::empty())
                    + self@.subrange(start as int, n as int),
            decreases VISIBLE_LINES - out@.len(),
        {
            let ghost before = out@;
            let blank = String::new();
            out.insert(0, blank);
            assert(out@ == seq![blank] + before);
            assert(texts(out@) =~= seq![Seq::<char>::empty()] + texts(before));
            assert(texts(out@) =~= Seq::new((out@.len() - (n - start)) as nat, |i: int| Seq::<char>::empty())
                + self@.subrange(start as int, n as int));
        }
        assert(texts(out@) =~= window(self@));
        out
    }
}

} // verus!

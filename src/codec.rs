//! The stored form of a list of pending actions: `[`, the labels each in
//! double quotes and separated by `,`, then `]`. Inside a label a double
//! quote or a backslash is written with a backslash before it.
use vstd::prelude::*;
use vstd::string::*;
use crate::model::Process;
use crate::store::texts;

verus! {

/// Where the reader of an encoded list stands.
#[derive(Debug, Clone, Copy, PartialEq, Eq, Structural)]
pub enum Phase {
    /// Before the opening bracket.
    Open,
    /// After the opening bracket.
    First,
    /// After a comma.
    Next,
    /// Inside a label.
    Item,
    /// Inside a label, after a backslash.
    Escape,
    /// After the closing quote of a label.
    After,
    /// After the closing bracket.
    Closed,
    /// The text is not an encoded list.
    Bad,
}

/// A reader's state: its phase, the labels read, and the label being read.
pub type ReadState = (Phase, Seq<Seq<char>>, Seq<char>);

pub open spec fn step(st: ReadState, c: char) -> ReadState {
    let (ph, done, cur) = st;
    match ph {
        Phase::Open => if c == '[' {
            (Phase::First, done, cur)
        } else {
            (Phase::Bad, done, cur)
        },
        Phase::First => if c == '"' {
            (Phase::Item, done, Seq::empty())
        } else if c == ']' {
            (Phase::Closed, done, cur)
        } else {
            (Phase::Bad, done, cur)
        },
        Phase::Next => if c == '"' {
            (Phase::Item, done, Seq::empty())
        } else {
            (Phase::Bad, done, cur)
        },
        Phase::Item => if c == '\\' {
            (Phase::Escape, done, cur)
        } else if c == '"' {
            (Phase::After, done.push(cur), Seq::empty())
        } else {
            (Phase::Item, done, cur.push(c))
        },
        Phase::Escape => (Phase::Item, done, cur.push(c)),
        Phase::After => if c == ',' {
            (Phase::Next, done, cur)
        } else if c == ']' {
            (Phase::Closed, done, cur)
        } else {
            (Phase::Bad, done, cur)
        },
        _ => (Phase::Bad, done, cur),
    }
}

/// The state after reading `s` from `st`.
pub open spec fn run(st: ReadState, s: Seq<char>) -> ReadState
    decreases s.len(),
{
    if s.len() == 0 {
        st
    } else {
        step(run(st, s.drop_last()), s.last())
    }
}

pub open spec fn start() -> ReadState {
    (Phase::Open, Seq::empty(), Seq::empty())
}

/// The labels that the text `s` encodes, or `None` if it encodes none.
pub open spec fn decoded(s: Seq<char>) -> Option<Seq<Seq<char>>> {
    if run(start(), s).0 == Phase::Closed {
        Some(run(start(), s).1)
    } else {
        None
    }
}

pub open spec fn esc_char(c: char) -> Seq<char> {
    if c == '"' || c == '\\' {
        seq!['\\', c]
    } else {
        seq![c]
    }
}

/// A label with its quotes and backslashes escaped.
pub open spec fn esc(s: Seq<char>) -> Seq<char>
    decreases s.len(),
{
    if s.len() == 0 {
        Seq::empty()
    } else {
        esc(s.drop_last()) + esc_char(s.last())
    }
}

pub open spec fn quoted(s: Seq<char>) -> Seq<char> {
    seq!['"'] + esc(s) + seq!['"']
}

/// The quoted labels separated by commas.
pub open spec fn joined(xs: Seq<Seq<char>>) -> Seq<char>
    decreases xs.len(),
{
    if xs.len() == 0 {
        Seq::empty()
    } else if xs.len() == 1 {
        quoted(xs[0])
    } else {
        joined(xs.drop_last()) + seq![','] + quoted(xs.last())
    }
}

/// The stored text of the labels `xs`.
pub open spec fn encoded(xs: Seq<Seq<char>>) -> Seq<char> {
    seq!['['] + joined(xs) + seq![']']
}

proof fn lemma_run_concat(st: ReadState, a: Seq<char>, b: Seq<char>)
    ensures
        run(st, a + b) == run(run(st, a), b),
    decreases b.len(),
{
    if b.len() == 0 {
        assert(a + b =~= a);
    } else {
        lemma_run_concat(st, a, b.drop_last());
        assert((a + b).drop_last() =~= a + b.drop_last());
        assert((a + b).last() == b.last());
    }
}

proof fn lemma_run_one(st: ReadState, c: char)
    ensures
        run(st, seq![c]) == step(st, c),
{
    assert(seq![c].drop_last() =~= Seq::<char>::empty());
    assert(run(st, Seq::<char>::empty()) == st);
    assert(seq![c].last() == c);
}

proof fn lemma_run_esc(done: Seq<Seq<char>>, cur: Seq<char>, x: Seq<char>)
    ensures
        run((Phase::Item, done, cur), esc(x)) == (Phase::Item, done, cur + x),
    decreases x.len(),
{
    if x.len() == 0 {
        assert(cur + x =~= cur);
    } else {
        let d = x.drop_last();
        let c = x.last();
        lemma_run_esc(done, cur, d);
        lemma_run_concat((Phase::Item, done, cur), esc(d), esc_char(c));
        if c == '"' || c == '\\' {
            assert(seq!['\\', c] =~= seq!['\\'] + seq![c]);
            lemma_run_concat((Phase::Item, done, cur + d), seq!['\\'], seq![c]);
            lemma_run_one((Phase::Item, done, cur + d), '\\');
            lemma_run_one((Phase::Escape, done, cur + d), c);
        } else {
            lemma_run_one((Phase::Item, done, cur + d), c);
        }
        assert((cur + d).push(c) =~= cur + x);
    }
}

proof fn lemma_run_quoted(ph: Phase, done: Seq<Seq<char>>, cur: Seq<char>, x: Seq<char>)
    requires
        ph == Phase::First || ph == Phase::Next,
    ensures
        run((ph, done, cur), quoted(x)) == (Phase::After, done.push(x), Seq::<char>::empty()),
{
    let e = Seq::<char>::empty();
    lemma_run_concat((ph, done, cur), seq!['"'] + esc(x), seq!['"']);
    lemma_run_concat((ph, done, cur), seq!['"'], esc(x));
    lemma_run_one((ph, done, cur), '"');
    lemma_run_esc(done, e, x);
    assert(e + x =~= x);
    lemma_run_one((Phase::Item, done, x), '"');
}

proof fn lemma_run_joined(xs: Seq<Seq<char>>)
    requires
        xs.len() > 0,
    ensures
        run((Phase::First, Seq::empty(), Seq::empty()), joined(xs)) == (
            Phase::After,
            xs,
            Seq::<char>::empty(),
        ),
    decreases xs.len(),
{
    let e = Seq::<char>::empty();
    let none = Seq::<Seq<char>>::empty();
    if xs.len() == 1 {
        lemma_run_quoted(Phase::First, none, e, xs[0]);
        assert(none.push(xs[0]) =~= xs);
    } else {
        let d = xs.drop_last();
        lemma_run_joined(d);
        lemma_run_concat((Phase::First, none, e), joined(d) + seq![','], quoted(xs.last()));
        lemma_run_concat((Phase::First, none, e), joined(d), seq![',']);
        lemma_run_one((Phase::After, d, e), ',');
        lemma_run_quoted(Phase::Next, d, e, xs.last());
        assert(d.push(xs.last()) =~= xs);
    }
}

/// Decoding the encoding of any list of labels gives back that list,
/// unchanged in order, length and content.
pub proof fn lemma_round_trip(xs: Seq<Seq<char>>)
    ensures
        decoded(encoded(xs)) == Some(xs),
{
    let e = Seq::<char>::empty();
    let none = Seq::<Seq<char>>::empty();
    lemma_run_concat(start(), seq!['['] + joined(xs), seq![']']);
    lemma_run_concat(start(), seq!['['], joined(xs));
    lemma_run_one(start(), '[');
    if xs.len() == 0 {
        assert(joined(xs) =~= e);
        lemma_run_one((Phase::First, none, e), ']');
        assert(none =~= xs);
    } else {
        lemma_run_joined(xs);
        lemma_run_one((Phase::After, xs, e), ']');
    }
}

/// Relies on std's `String::push`: appends one character.
#[verifier::external_body]
fn push_char(s: &mut String, c: char)
    ensures
        final(s)@ == old(s)@.push(c),
{
    s.push(c)
}

/// The stored text of the labels `items`.
pub fn encode_actions(items: &Vec<String>) -> (r: String)
    ensures
        r@ == encoded(texts(items@)),
{
    let ghost t = texts(items@);
    let mut out = String::new();
    push_char(&mut out, '[');
    let n = items.len();
    let mut i: usize = 0;
    assert(out@ =~= seq!['['] + joined(t.take(0)));
    while i < n
        invariant
            t == texts(items@),
            n == items@.len(),
            i <= n,
            out@ == seq!['['] + joined(t.take(i as int)),
        decreases n - i,
    {
        let ghost before = out@;
        if i > 0 {
            push_char(&mut out, ',');
        }
        push_char(&mut out, '"');
        let ghost mid = out@;
        let s = items[i].as_str();
        let m = s.unicode_len();
        let mut j: usize = 0;
        assert(s@.take(0) =~= Seq::<char>::empty());
        assert(mid + esc(s@.take(0)) =~= mid);
        while j < m
            invariant
                m == s@.len(),
                j <= m,
                out@ == mid + esc(s@.take(j as int)),
            decreases m - j,
        {
            let c = s.get_char(j);
            if c == '"' || c == '\\' {
                push_char(&mut out, '\\');
            }
            push_char(&mut out, c);
            proof {
                assert(s@.take(j + 1).drop_last() =~= s@.take(j as int));
                assert(mid + esc(s@.take(j + 1)) =~= mid + esc(s@.take(j as int)) + esc_char(c));
            }
            j += 1;
        }
        push_char(&mut out, '"');
        proof {
            assert(s@.take(m as int) =~= s@);
            assert(t[i as int] == s@);
            let ti = t.take(i + 1);
            if i == 0 {
                assert(ti[0] == t[0]);
                assert(out@ =~= seq!['['] + joined(ti));
            } else {
                assert(ti.drop_last() =~= t.take(i as int));
                assert(ti.last() == t[i as int]);
                assert(out@ =~= seq!['['] + joined(ti));
            }
        }
        i += 1;
    }
    push_char(&mut out, ']');
    assert(t.take(n as int) =~= t);
    out
}

/// The labels that the text `s` encodes, or `None` where it is not the
/// stored form of a list.
pub fn decode_actions(s: &str) -> (r: Option<Vec<String>>)
    ensures
        decoded(s@) matches Some(v) ==> r matches Some(w) && texts(w@) == v,
        decoded(s@) is None ==> r is None,
{
    let m = s.unicode_len();
    let mut ph = Phase::Open;
    let mut done: Vec<String> = Vec::new();
    let mut cur = String::new();
    let mut i: usize = 0;
    assert(s@.take(0) =~= Seq::<char>::empty());
    assert(texts(done@) =~= Seq::<Seq<char>>::empty());
    while i < m
        invariant
            m == s@.len(),
            i <= m,
            (ph, texts(done@), cur@) == run(start(), s@.take(i as int)),
        decreases m - i,
    {
        let c = s.get_char(i);
        let ghost prev = (ph, texts(done@), cur@);
        proof {
            assert(s@.take(i + 1).drop_last() =~= s@.take(i as int));
            assert(s@.take(i + 1).last() == c);
        }
        match ph {
            Phase::Open => {
                ph = if c == '[' {
                    Phase::First
                } else {
                    Phase::Bad
                };
            },
            Phase::First => {
                if c == '"' {
                    ph = Phase::Item;
                    cur = String::new();
                } else if c == ']' {
                    ph = Phase::Closed;
                } else {
                    ph = Phase::Bad;
                }
            },
            Phase::Next => {
                if c == '"' {
                    ph = Phase::Item;
                    cur = String::new();
                } else {
                    ph = Phase::Bad;
                }
            },
            Phase::Item => {
                if c == '\\' {
                    ph = Phase::Escape;
                } else if c == '"' {
                    done.push(cur);
                    cur = String::new();
                    ph = Phase::After;
                    assert(texts(done@) =~= prev.1.push(prev.2));
                } else {
                    push_char(&mut cur, c);
                }
            },
            Phase::Escape => {
                push_char(&mut cur, c);
                ph = Phase::Item;
            },
            Phase::After => {
                if c == ',' {
                    ph = Phase::Next;
                } else if c == ']' {
                    ph = Phase::Closed;
                } else {
                    ph = Phase::Bad;
                }
            },
            _ => {
                ph = Phase::Bad;
            },
        }
        assert((ph, texts(done@), cur@) == step(prev, c));
        i += 1;
    }
    assert(s@.take(m as int) =~= s@);
    if ph == Phase::Closed {
        Some(done)
    } else {
        None
    }
}

/// The labels that the text `s` encodes; a text that encodes none reads
/// as no labels.
pub fn actions_or_empty(s: &str) -> (r: Vec<String>)
    ensures
        decoded(s@) matches Some(v) ==> texts(r@) == v,
        decoded(s@) is None ==> r@.len() == 0,
{
    match decode_actions(s) {
        Some(v) => v,
        None => Vec::new(),
    }
}

impl Process {
    /// The pending actions as a list of labels; a stored value that is not
    /// an encoded list reads as no actions.
    pub fn pending_action_list(&self) -> (r: Vec<String>)
        ensures
            decoded(self.pending_actions@) matches Some(v) ==> texts(r@) == v,
            decoded(self.pending_actions@) is None ==> r@.len() == 0,
    {
        actions_or_empty(self.pending_actions.as_str())
    }
}

} // verus!

//! CSV quoting of text fields.
use vstd::prelude::*;
use crate::text::{chars_of, push_char};

verus! {

/// A field must be quoted when it holds a comma, a double quote or a line feed.
pub open spec fn needs_quoting(s: Seq<char>) -> bool {
    s.contains(',') || s.contains('"') || s.contains('\n')
}

/// The text that stands for one character inside a quoted field.
pub open spec fn quoted_piece(c: char) -> Seq<char> {
    if c == '"' {
        seq!['"', '"']
    } else {
        seq![c]
    }
}

/// `s` with every double quote doubled.
pub open spec fn doubled(s: Seq<char>) -> Seq<char>
    decreases s.len(),
{
    if s.len() == 0 {
        Seq::empty()
    } else {
        quoted_piece(s[0]) + doubled(s.drop_first())
    }
}

/// The CSV rendering of one field.
pub open spec fn escaped(s: Seq<char>) -> Seq<char> {
    if needs_quoting(s) {
        seq!['"'] + doubled(s) + seq!['"']
    } else {
        s
    }
}

/// Reads the inside of a quoted field: a doubled quote stands for one quote.
pub open spec fn undoubled(u: Seq<char>) -> Seq<char>
    decreases u.len(),
{
    if u.len() == 0 {
        Seq::empty()
    } else if u.len() >= 2 && u[0] == '"' && u[1] == '"' {
        seq!['"'] + undoubled(u.subrange(2, u.len() as int))
    } else {
        seq![u[0]] + undoubled(u.drop_first())
    }
}

/// Standard CSV reading of one field's text.
pub open spec fn unescaped(t: Seq<char>) -> Seq<char> {
    if t.len() >= 2 && t[0] == '"' && t[t.len() - 1] == '"' {
        undoubled(t.subrange(1, t.len() - 1))
    } else {
        t
    }
}

proof fn lemma_doubled_push(s: Seq<char>, c: char)
    ensures
        doubled(s.push(c)) == doubled(s) + quoted_piece(c),
    decreases s.len(),
{
    if s.len() == 0 {
        assert(s.push(c).drop_first() =~= Seq::<char>::empty());
        assert(doubled(Seq::<char>::empty()) == Seq::<char>::empty());
        assert(doubled(s.push(c)) =~= doubled(s) + quoted_piece(c));
    } else {
        assert(s.push(c).drop_first() =~= s.drop_first().push(c));
        lemma_doubled_push(s.drop_first(), c);
        assert(doubled(s.push(c)) =~= doubled(s) + quoted_piece(c));
    }
}

proof fn lemma_undoubled_doubled(s: Seq<char>)
    ensures
        undoubled(doubled(s)) == s,
    decreases s.len(),
{
    if s.len() > 0 {
        let d = doubled(s);
        let rest = doubled(s.drop_first());
        lemma_undoubled_doubled(s.drop_first());
        if s[0] == '"' {
            assert(d.subrange(2, d.len() as int) =~= rest);
        } else {
            assert(d.drop_first() =~= rest);
        }
        assert(undoubled(d) =~= s);
    }
}

/// Reading back a rendered field gives the field again: quoting is undone
/// and each doubled quote becomes one quote again.
pub proof fn lemma_escape_round_trip(s: Seq<char>)
    ensures
        unescaped(escaped(s)) == s,
{
    if needs_quoting(s) {
        let t = escaped(s);
        lemma_undoubled_doubled(s);
        assert(t.subrange(1, t.len() - 1) =~= doubled(s));
    } else {
        if s.len() >= 2 && s[0] == '"' {
            assert(s.contains('"'));
        }
    }
}

/// Renders one CSV field: wrapped in double quotes, with inner quotes doubled,
/// when it holds a comma, a double quote or a line feed; unchanged otherwise.
pub fn escape_csv_field(field: &str) -> (r: String)
    ensures
        r@ == escaped(field@),
{
    let cs = chars_of(field);
    let mut quote = false;
    let mut i: usize = 0;
    while i < cs.len()
        invariant
            cs@ == field@,
            i <= cs@.len(),
            quote == (exists|k: int| 0 <= k < i && (cs@[k] == ',' || cs@[k] == '"' || cs@[k] == '\n')),
        decreases cs@.len() - i,
    {
        if cs[i] == ',' || cs[i] == '"' || cs[i] == '\n' {
            quote = true;
        }
        i = i + 1;
    }
    assert(quote == needs_quoting(field@)) by {
        if quote {
            let k = choose|k: int| 0 <= k < cs@.len() && (cs@[k] == ',' || cs@[k] == '"' || cs@[k] == '\n');
            assert(cs@[k] == ',' ==> cs@.contains(','));
            assert(cs@[k] == '"' ==> cs@.contains('"'));
            assert(cs@[k] == '\n' ==> cs@.contains('\n'));
        }
    }
    let mut out = String::new();
    if !quote {
        let mut j: usize = 0;
        while j < cs.len()
            invariant
                cs@ == field@,
                j <= cs@.len(),
                out@ == cs@.subrange(0, j as int),
            decreases cs@.len() - j,
        {
            push_char(&mut out, cs[j]);
            j = j + 1;
            assert(cs@.subrange(0, j as int) =~= cs@.subrange(0, j - 1 as int).push(cs@[j - 1]));
        }
        assert(cs@.subrange(0, cs@.len() as int) =~= cs@);
        return out;
    }
    push_char(&mut out, '"');
    let mut j: usize = 0;
    while j < cs.len()
        invariant
            cs@ == field@,
            j <= cs@.len(),
            out@ == seq!['"'] + doubled(cs@.subrange(0, j as int)),
        decreases cs@.len() - j,
    {
        let c = cs[j];
        proof {
            assert(cs@.subrange(0, j + 1 as int) =~= cs@.subrange(0, j as int).push(c));
            lemma_doubled_push(cs@.subrange(0, j as int), c);
        }
        push_char(&mut out, c);
        if c == '"' {
            push_char(&mut out, '"');
        }
        j = j + 1;
        assert(out@ =~= seq!['"'] + doubled(cs@.subrange(0, j as int)));
    }
    push_char(&mut out, '"');
    assert(cs@.subrange(0, cs@.len() as int) =~= cs@);
    out
}

} // verus!

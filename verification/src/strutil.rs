use vstd::prelude::*;
use vstd::string::*;

verus! {

/// The character views of a sequence of owned strings.
pub open spec fn views_of(parts: Seq<String>) -> Seq<Seq<char>> {
    parts.map_values(|p: String| p@)
}

/// Splitting a character sequence at every occurrence of `sep`.
/// An empty input gives one empty part; a separator at either end or two
/// adjacent separators give empty parts, exactly as the splitting of the
/// standard library does.
pub open spec fn split_seq(s: Seq<char>, sep: char) -> Seq<Seq<char>>
    decreases s.len(),
{
    if s.len() == 0 {
        seq![Seq::<char>::empty()]
    } else if s[0] == sep {
        seq![Seq::<char>::empty()] + split_seq(s.skip(1), sep)
    } else {
        let rest = split_seq(s.skip(1), sep);
        seq![seq![s[0]] + rest[0]] + rest.skip(1)
    }
}

/// Joining parts with a single separator character between adjacent parts.
pub open spec fn join_seq(parts: Seq<Seq<char>>, sep: char) -> Seq<char>
    decreases parts.len(),
{
    if parts.len() == 0 {
        Seq::<char>::empty()
    } else if parts.len() == 1 {
        parts[0]
    } else {
        parts[0] + seq![sep] + join_seq(parts.skip(1), sep)
    }
}

/// True when no character of `s` is `sep`.
pub open spec fn sep_free(s: Seq<char>, sep: char) -> bool {
    forall|k: int| 0 <= k < s.len() ==> s[k] != sep
}

pub proof fn lemma_split_nonempty(s: Seq<char>, sep: char)
    ensures
        split_seq(s, sep).len() >= 1,
    decreases s.len(),
{
    if s.len() != 0 && s[0] == sep {
        lemma_split_nonempty(s.skip(1), sep);
    }
}

/// A sequence without the separator splits into itself alone.
pub proof fn lemma_split_no_sep(s: Seq<char>, sep: char)
    requires
        sep_free(s, sep),
    ensures
        split_seq(s, sep) == seq![s],
    decreases s.len(),
{
    if s.len() == 0 {
        assert(split_seq(s, sep) =~~= seq![s]);
    } else {
        lemma_split_no_sep(s.skip(1), sep);
        assert(seq![s[0]] + s.skip(1) =~= s);
        assert(split_seq(s, sep) =~~= seq![s]);
    }
}

/// Splitting after a leading separator-free part: the part comes out first,
/// the rest splits on its own.
pub proof fn lemma_split_prefix(cur: Seq<char>, rest: Seq<char>, sep: char)
    requires
        sep_free(cur, sep),
    ensures
        split_seq(cur + rest, sep) == seq![cur + split_seq(rest, sep)[0]] + split_seq(
            rest,
            sep,
        ).skip(1),
    decreases cur.len(),
{
    lemma_split_nonempty(rest, sep);
    if cur.len() == 0 {
        assert(cur + rest =~= rest);
        assert(cur + split_seq(rest, sep)[0] =~= split_seq(rest, sep)[0]);
        assert(seq![split_seq(rest, sep)[0]] + split_seq(rest, sep).skip(1) =~= split_seq(
            rest,
            sep,
        ));
    } else {
        let s = cur + rest;
        assert(s[0] == cur[0]);
        assert(s[0] != sep);
        assert(s.skip(1) =~= cur.skip(1) + rest);
        lemma_split_prefix(cur.skip(1), rest, sep);
        let inner = split_seq(cur.skip(1) + rest, sep);
        assert(split_seq(s, sep) == seq![seq![s[0]] + inner[0]] + inner.skip(1));
        assert(inner[0] == cur.skip(1) + split_seq(rest, sep)[0]);
        assert(seq![s[0]] + inner[0] =~= cur + split_seq(rest, sep)[0]);
        assert(inner.skip(1) =~= split_seq(rest, sep).skip(1));
        assert(split_seq(s, sep) =~= seq![cur + split_seq(rest, sep)[0]] + split_seq(
            rest,
            sep,
        ).skip(1));
    }
}

/// Splitting a separator-free part, one separator, and a remainder: the part
/// comes off whole.
pub proof fn lemma_split_at_sep(a: Seq<char>, rest: Seq<char>, sep: char)
    requires
        sep_free(a, sep),
    ensures
        split_seq(a + seq![sep] + rest, sep) == seq![a] + split_seq(rest, sep),
{
    let t = seq![sep] + rest;
    assert(t[0] == sep);
    assert(t.skip(1) =~= rest);
    assert(split_seq(t, sep) == seq![Seq::<char>::empty()] + split_seq(rest, sep));
    lemma_split_prefix(a, t, sep);
    assert(a + seq![sep] + rest =~= a + t);
    lemma_split_nonempty(rest, sep);
    assert(split_seq(t, sep)[0] =~= Seq::<char>::empty());
    assert(a + split_seq(t, sep)[0] =~= a);
    assert(split_seq(t, sep).skip(1) =~= split_seq(rest, sep));
    assert(split_seq(a + t, sep) =~= seq![a] + split_seq(rest, sep));
}

/// Appending one more part to a join.
pub proof fn lemma_join_push(parts: Seq<Seq<char>>, p: Seq<char>, sep: char)
    ensures
        parts.len() == 0 ==> join_seq(parts.push(p), sep) == p,
        parts.len() >= 1 ==> join_seq(parts.push(p), sep) == join_seq(parts, sep) + seq![sep] + p,
    decreases parts.len(),
{
    if parts.len() == 0 {
        assert(parts.push(p)[0] =~= p);
    } else if parts.len() == 1 {
        assert(parts.push(p).len() == 2);
        assert(parts.push(p)[0] == parts[0]);
        assert(parts.push(p).skip(1) =~= seq![p]);
        assert(join_seq(seq![p], sep) == p);
    } else {
        assert(parts.push(p).skip(1) =~= parts.skip(1).push(p));
        lemma_join_push(parts.skip(1), p, sep);
    }
}

/// Splitting undoes joining, as long as no part contains the separator.
pub proof fn lemma_split_join(parts: Seq<Seq<char>>, sep: char)
    requires
        parts.len() >= 1,
        forall|k: int| 0 <= k < parts.len() ==> sep_free(#[trigger] parts[k], sep),
    ensures
        split_seq(join_seq(parts, sep), sep) == parts,
    decreases parts.len(),
{
    if parts.len() == 1 {
        lemma_split_no_sep(parts[0], sep);
        assert(split_seq(join_seq(parts, sep), sep) =~= parts);
    } else {
        lemma_split_join(parts.skip(1), sep);
        lemma_split_at_sep(parts[0], join_seq(parts.skip(1), sep), sep);
        assert(split_seq(join_seq(parts, sep), sep) =~= parts);
    }
}

/// Splits `s` at every occurrence of `sep`.
pub fn split_on_char(s: &str, sep: char) -> (r: Vec<String>)
    ensures
        views_of(r@) == split_seq(s@, sep),
{
    let len: usize = s.unicode_len();
    let mut parts: Vec<String> = Vec::new();
    let mut start: usize = 0;
    let mut i: usize = 0;
    proof {
        assert(views_of(parts@) =~= Seq::<Seq<char>>::empty());
        assert(s@.skip(0) =~= s@);
        assert(views_of(parts@) + split_seq(s@, sep) =~= split_seq(s@, sep));
    }
    while i < len
        invariant
            0 <= start <= i <= len,
            len == s@.len(),
            sep_free(s@.subrange(start as int, i as int), sep),
            split_seq(s@, sep) == views_of(parts@) + split_seq(s@.skip(start as int), sep),
        decreases len - i,
    {
        let c = s.get_char(i);
        if c == sep {
            let piece = s.substring_char(start, i).to_owned();
            proof {
                let tok = s@.subrange(start as int, i as int);
                let tail = s@.skip(i as int + 1);
                assert(s@.skip(start as int) =~= tok + seq![sep] + tail);
                lemma_split_at_sep(tok, tail, sep);
                assert(views_of(parts@.push(piece)) =~= views_of(parts@) + seq![tok]);
                assert(views_of(parts@) + (seq![tok] + split_seq(tail, sep)) =~= (views_of(parts@)
                    + seq![tok]) + split_seq(tail, sep));
            }
            parts.push(piece);
            start = i + 1;
            proof {
                assert(s@.subrange(i as int + 1, i as int + 1) =~= Seq::<char>::empty());
            }
        } else {
            proof {
                assert(s@.subrange(start as int, i as int + 1) =~= s@.subrange(
                    start as int,
                    i as int,
                ) + seq![s@[i as int]]);
            }
        }
        i = i + 1;
    }
    let piece = s.substring_char(start, len).to_owned();
    proof {
        let tok = s@.subrange(start as int, len as int);
        assert(s@.skip(start as int) =~= tok);
        lemma_split_no_sep(tok, sep);
        assert(views_of(parts@.push(piece)) =~= views_of(parts@) + seq![tok]);
        assert(views_of(parts@) + seq![tok] =~= views_of(parts@) + split_seq(s@.skip(start as int), sep));
    }
    parts.push(piece);
    parts
}

/// Joins `parts` with the single-character separator `sep`.
pub fn join_with(parts: &Vec<String>, sep: &str) -> (r: String)
    requires
        sep@.len() == 1,
    ensures
        r@ == join_seq(views_of(parts@), sep@[0]),
{
    let ghost c = sep@[0];
    let mut out = String::new();
    let mut k: usize = 0;
    while k < parts.len()
        invariant
            0 <= k <= parts.len(),
            sep@.len() == 1,
            c == sep@[0],
            out@ == join_seq(views_of(parts@).take(k as int), c),
        decreases parts.len() - k,
    {
        proof {
            lemma_join_push(views_of(parts@).take(k as int), parts@[k as int]@, c);
            assert(views_of(parts@).take(k as int).push(parts@[k as int]@) =~= views_of(
                parts@,
            ).take(k as int + 1));
            assert(sep@ =~= seq![c]);
        }
        if k > 0 {
            out.append(sep);
        }
        out.append(parts[k].as_str());
        k = k + 1;
    }
    proof {
        assert(views_of(parts@).take(parts@.len() as int) =~= views_of(parts@));
    }
    out
}

/// True when some element of `list` equals `x`.
pub fn contains_string(list: &Vec<String>, x: &str) -> (r: bool)
    ensures
        r == views_of(list@).contains(x@),
{
    let xs: String = x.to_owned();
    let mut k: usize = 0;
    while k < list.len()
        invariant
            0 <= k <= list.len(),
            xs@ == x@,
            forall|j: int| 0 <= j < k ==> views_of(list@)[j] != x@,
        decreases list.len() - k,
    {
        if list[k] == xs {
            proof {
                assert(views_of(list@)[k as int] == x@);
            }
            return true;
        }
        k = k + 1;
    }
    proof {
        assert(forall|j: int| 0 <= j < views_of(list@).len() ==> views_of(list@)[j] != x@);
    }
    false
}

} // verus!

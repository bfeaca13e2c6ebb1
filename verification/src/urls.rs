use vstd::prelude::*;

verus! {

/// State of the line splitter after reading a prefix of the input: the raw
/// lines completed so far, and the bytes of the line still in progress.
pub open spec fn spec_split_state(s: Seq<u8>) -> (Seq<Seq<u8>>, Seq<u8>)
    decreases s.len(),
{
    if s.len() == 0 {
        (Seq::empty(), Seq::empty())
    } else {
        let st = spec_split_state(s.drop_last());
        if s.last() == 10 {
            (st.0.push(st.1), Seq::empty())
        } else {
            (st.0, st.1.push(s.last()))
        }
    }
}

/// A raw line with a single trailing carriage return removed.
pub open spec fn spec_strip_cr(l: Seq<u8>) -> Seq<u8> {
    if l.len() > 0 && l.last() == 13 {
        l.drop_last()
    } else {
        l
    }
}

/// The raw lines, each stripped of a trailing carriage return, with the
/// empty ones dropped.
pub open spec fn spec_clean_lines(raw: Seq<Seq<u8>>) -> Seq<Seq<u8>> {
    raw.map_values(|l: Seq<u8>| spec_strip_cr(l)).filter(|l: Seq<u8>| l.len() != 0)
}

/// The URL list a file's bytes encode: lines are separated by newline
/// bytes, one trailing carriage return is dropped from each line, and only
/// non-empty lines become URLs.
pub open spec fn spec_url_lines(s: Seq<u8>) -> Seq<Seq<u8>> {
    let st = spec_split_state(s);
    spec_clean_lines(st.0.push(st.1))
}

proof fn lemma_clean_lines_push(raw: Seq<Seq<u8>>, l: Seq<u8>)
    ensures
        spec_strip_cr(l).len() != 0 ==> spec_clean_lines(raw.push(l)) == spec_clean_lines(
            raw,
        ).push(spec_strip_cr(l)),
        spec_strip_cr(l).len() == 0 ==> spec_clean_lines(raw.push(l)) == spec_clean_lines(raw),
{
    let strip = |l: Seq<u8>| spec_strip_cr(l);
    let keep = |l: Seq<u8>| l.len() != 0;
    let mapped = raw.map_values(strip).push(strip(l));
    assert(raw.push(l).map_values(strip) =~= mapped);
    assert(mapped.drop_last() =~= raw.map_values(strip));
    reveal(Seq::filter);
    assert(mapped.filter(keep) == if keep(strip(l)) {
        raw.map_values(strip).filter(keep).push(strip(l))
    } else {
        raw.map_values(strip).filter(keep)
    });
}

/// Split the bytes of a URL file into its non-empty lines, each line freed
/// of a trailing carriage return.
pub fn parse_url_lines(text: &Vec<u8>) -> (lines: Vec<Vec<u8>>)
    ensures
        lines@.len() == spec_url_lines(text@).len(),
        forall|i: int|
            0 <= i < lines@.len() ==> (#[trigger] lines@[i])@ == spec_url_lines(text@)[i],
{
    let n = text.len();
    let mut out: Vec<Vec<u8>> = Vec::new();
    let mut cur: Vec<u8> = Vec::new();
    let mut i: usize = 0;
    while i < n
        invariant
            n == text@.len(),
            0 <= i <= n,
            cur@ == spec_split_state(text@.take(i as int)).1,
            out@.len() == spec_clean_lines(spec_split_state(text@.take(i as int)).0).len(),
            forall|k: int|
                0 <= k < out@.len() ==> (#[trigger] out@[k])@ == spec_clean_lines(
                    spec_split_state(text@.take(i as int)).0,
                )[k],
        decreases n - i,
    {
        proof {
            assert(text@.take(i + 1).drop_last() =~= text@.take(i as int));
            assert(text@.take(i + 1).last() == text@[i as int]);
        }
        let b = text[i];
        if b == 10 {
            let ghost raw0 = spec_split_state(text@.take(i as int)).0;
            let mut line = cur;
            cur = Vec::new();
            if line.len() > 0 && line[line.len() - 1] == 13 {
                let _ = line.pop();
            }
            proof {
                assert(line@ == spec_strip_cr(spec_split_state(text@.take(i as int)).1));
                lemma_clean_lines_push(raw0, spec_split_state(text@.take(i as int)).1);
            }
            if line.len() > 0 {
                out.push(line);
            }
        } else {
            cur.push(b);
        }
        i = i + 1;
    }
    proof {
        assert(text@.take(n as int) =~= text@);
    }
    let mut line = cur;
    if line.len() > 0 && line[line.len() - 1] == 13 {
        let _ = line.pop();
    }
    proof {
        assert(line@ == spec_strip_cr(spec_split_state(text@).1));
        lemma_clean_lines_push(spec_split_state(text@).0, spec_split_state(text@).1);
    }
    if line.len() > 0 {
        out.push(line);
    }
    out
}

} // verus!

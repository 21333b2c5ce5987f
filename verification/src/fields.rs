//! Splitting a raw input line into its comma-separated fields.

use vstd::prelude::*;

verus! {

/// The field separator: an ASCII comma.
pub const COMMA: u8 = 44;

/// The fields of `s`, split on every comma: an empty input is one empty
/// field, and each comma ends the field before it. This is the layout
/// the column indices of a table select from.
pub open spec fn split_fields(s: Seq<u8>) -> Seq<Seq<u8>>
    decreases s.len(),
{
    if s.len() == 0 {
        seq![Seq::<u8>::empty()]
    } else if s[0] == COMMA {
        seq![Seq::<u8>::empty()] + split_fields(s.drop_first())
    } else {
        let rest = split_fields(s.drop_first());
        rest.update(0, seq![s[0]] + rest[0])
    }
}

/// A split always yields at least one field.
pub proof fn lemma_split_fields_len(s: Seq<u8>)
    ensures
        split_fields(s).len() >= 1,
    decreases s.len(),
{
    if s.len() > 0 {
        lemma_split_fields_len(s.drop_first());
    }
}

/// Extending the input by one byte extends the split: a comma opens a
/// new empty field, any other byte lands at the end of the last field.
proof fn lemma_split_fields_push(s: Seq<u8>, b: u8)
    ensures
        b == COMMA ==> split_fields(s.push(b)) == split_fields(s).push(Seq::<u8>::empty()),
        b != COMMA ==> split_fields(s.push(b)) == split_fields(s).update(
            split_fields(s).len() - 1,
            split_fields(s).last().push(b),
        ),
    decreases s.len(),
{
    lemma_split_fields_len(s);
    if s.len() == 0 {
        assert(split_fields(s) == seq![Seq::<u8>::empty()]);
        assert(s.push(b).drop_first() =~= s);
        assert(s.push(b)[0] == b);
        if b == COMMA {
            assert(split_fields(s.push(b)) =~~= split_fields(s).push(Seq::<u8>::empty()));
        } else {
            assert(seq![b] + Seq::<u8>::empty() =~= seq![b]);
            assert(split_fields(s.push(b)) =~~= split_fields(s).update(
                split_fields(s).len() - 1,
                split_fields(s).last().push(b),
            ));
        }
    } else {
        let t = s.drop_first();
        assert(s.push(b).drop_first() =~= t.push(b));
        assert(s.push(b)[0] == s[0]);
        lemma_split_fields_push(t, b);
        lemma_split_fields_len(t);
        let k = split_fields(t).len();
        if s[0] == COMMA {
            if b == COMMA {
                assert(seq![Seq::<u8>::empty()] + split_fields(t).push(Seq::<u8>::empty())
                    =~~= (seq![Seq::<u8>::empty()] + split_fields(t)).push(Seq::<u8>::empty()));
            } else {
                assert(seq![Seq::<u8>::empty()] + split_fields(t).update(
                    k - 1,
                    split_fields(t).last().push(b),
                ) =~~= (seq![Seq::<u8>::empty()] + split_fields(t)).update(
                    k as int,
                    split_fields(t).last().push(b),
                ));
                assert((seq![Seq::<u8>::empty()] + split_fields(t)).last() == split_fields(
                    t,
                ).last());
            }
        } else {
            if b == COMMA {
                assert(split_fields(t).push(Seq::<u8>::empty())[0] == split_fields(t)[0]);
                assert(split_fields(t).push(Seq::<u8>::empty()).update(
                    0,
                    seq![s[0]] + split_fields(t)[0],
                ) =~~= split_fields(t).update(0, seq![s[0]] + split_fields(t)[0]).push(
                    Seq::<u8>::empty(),
                ));
            } else {
                let rest = split_fields(t).update(k - 1, split_fields(t).last().push(b));
                if k == 1 {
                    assert(rest[0] == split_fields(t)[0].push(b));
                    assert(seq![s[0]] + split_fields(t)[0].push(b) =~= (seq![s[0]] + split_fields(
                        t,
                    )[0]).push(b));
                    assert(rest.update(0, seq![s[0]] + rest[0]) =~~= split_fields(s).update(
                        split_fields(s).len() - 1,
                        split_fields(s).last().push(b),
                    ));
                } else {
                    assert(rest[0] == split_fields(t)[0]);
                    assert(split_fields(s).last() == split_fields(t).last());
                    assert(rest.update(0, seq![s[0]] + rest[0]) =~~= split_fields(s).update(
                        split_fields(s).len() - 1,
                        split_fields(s).last().push(b),
                    ));
                }
            }
        }
    }
}

/// Split a raw line on commas into its fields.
pub fn split_line(line: &[u8]) -> (r: Vec<Vec<u8>>)
    ensures
        r@.map_values(|f: Vec<u8>| f@) == split_fields(line@),
{
    let mut fields: Vec<Vec<u8>> = Vec::new();
    let mut cur: Vec<u8> = Vec::new();
    let mut i: usize = 0;
    proof {
        assert(line@.take(0) =~= Seq::<u8>::empty());
        assert(fields@.map_values(|f: Vec<u8>| f@).push(cur@) =~~= split_fields(line@.take(0)));
    }
    while i < line.len()
        invariant
            i <= line@.len(),
            split_fields(line@.take(i as int)) == fields@.map_values(|f: Vec<u8>| f@).push(cur@),
        decreases line@.len() - i,
    {
        let b = line[i];
        proof {
            assert(line@.take(i + 1) =~= line@.take(i as int).push(line@[i as int]));
            lemma_split_fields_push(line@.take(i as int), b);
        }
        if b == COMMA {
            let ghost old_fields = fields@;
            let ghost old_cur = cur@;
            fields.push(cur);
            cur = Vec::new();
            proof {
                assert(fields@.map_values(|f: Vec<u8>| f@).push(cur@) =~~= old_fields.map_values(
                    |f: Vec<u8>| f@,
                ).push(old_cur).push(Seq::<u8>::empty()));
            }
        } else {
            let ghost old_cur = cur@;
            cur.push(b);
            proof {
                let m = fields@.map_values(|f: Vec<u8>| f@);
                assert(m.push(old_cur).update(m.len() as int, old_cur.push(b)) =~~= m.push(
                    old_cur.push(b),
                ));
                assert(m.push(old_cur).last() == old_cur);
            }
        }
        i += 1;
    }
    proof {
        assert(line@.take(line@.len() as int) =~= line@);
    }
    let ghost old_fields = fields@;
    let ghost last_cur = cur@;
    fields.push(cur);
    proof {
        assert(fields@.map_values(|f: Vec<u8>| f@) =~~= old_fields.map_values(|f: Vec<u8>| f@).push(
            last_cur,
        ));
    }
    fields
}

} // verus!

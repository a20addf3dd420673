use vstd::prelude::*;

verus! {

/// The ASCII upper-case form of a byte; other bytes stay as they are.
pub open spec fn upper(b: u8) -> u8 {
    if 97 <= b <= 122 {
        (b - 32) as u8
    } else {
        b
    }
}

/// PascalCase of `s`: underscores are dropped, and the first byte of each word is
/// upper-cased; `at_start` holds when the previous byte was an underscore (or
/// there was none).
pub open spec fn camel_from(s: Seq<u8>, at_start: bool) -> Seq<u8>
    decreases s.len(),
{
    if s.len() == 0 {
        seq![]
    } else if s[0] == 95 {
        camel_from(s.drop_first(), true)
    } else {
        seq![if at_start { upper(s[0]) } else { s[0] }] + camel_from(s.drop_first(), false)
    }
}

pub open spec fn camel(s: Seq<u8>) -> Seq<u8> {
    camel_from(s, true)
}

/// `s` with every ASCII letter upper-cased.
pub open spec fn upper_all(s: Seq<u8>) -> Seq<u8> {
    s.map_values(|b: u8| upper(b))
}

/// Converts a snake_case identifier to PascalCase.
pub fn to_camel(s: &[u8]) -> (r: Vec<u8>)
    ensures
        r@ == camel(s@),
{
    let mut at_start = true;
    let mut res: Vec<u8> = Vec::new();
    let mut i: usize = 0;
    proof {
        assert(s@.skip(0) =~= s@);
    }
    while i < s.len()
        invariant
            i <= s@.len(),
            res@ + camel_from(s@.skip(i as int), at_start) == camel(s@),
        decreases s@.len() - i,
    {
        let b = s[i];
        proof {
            assert(s@.skip(i as int).drop_first() =~= s@.skip(i + 1));
        }
        if b == 95 {
            at_start = true;
        } else {
            let c = if at_start && 97 <= b && b <= 122 {
                b - 32
            } else {
                b
            };
            proof {
                assert(res@.push(c) + camel_from(s@.skip(i + 1), false) =~= res@ + camel_from(
                    s@.skip(i as int),
                    at_start,
                ));
            }
            res.push(c);
            at_start = false;
        }
        i = i + 1;
    }
    proof {
        assert(res@ + Seq::<u8>::empty() =~= res@);
    }
    res
}

/// Upper-cases every ASCII letter of `s`.
pub fn to_upper(s: &[u8]) -> (r: Vec<u8>)
    ensures
        r@ == upper_all(s@),
{
    let mut res: Vec<u8> = Vec::new();
    let mut i: usize = 0;
    while i < s.len()
        invariant
            i <= s@.len(),
            res@ == upper_all(s@.take(i as int)),
        decreases s@.len() - i,
    {
        let b = s[i];
        res.push(
            if 97 <= b && b <= 122 {
                b - 32
            } else {
                b
            },
        );
        proof {
            assert(upper_all(s@.take(i + 1)) =~= upper_all(s@.take(i as int)).push(upper(b)));
        }
        i = i + 1;
    }
    proof {
        assert(s@.take(s@.len() as int) =~= s@);
    }
    res
}

proof fn lemma_camel_from_no_underscore(s: Seq<u8>, at_start: bool)
    ensures
        forall|i: int| 0 <= i < camel_from(s, at_start).len() ==> #[trigger] camel_from(s, at_start)[i] != 95,
    decreases s.len(),
{
    if s.len() > 0 {
        lemma_camel_from_no_underscore(s.drop_first(), s[0] == 95 || false);
        lemma_camel_from_no_underscore(s.drop_first(), true);
        lemma_camel_from_no_underscore(s.drop_first(), false);
    }
}

/// PascalCase never holds an underscore.
pub proof fn lemma_camel_no_underscore(s: Seq<u8>)
    ensures
        forall|i: int| 0 <= i < camel(s).len() ==> #[trigger] camel(s)[i] != 95,
{
    lemma_camel_from_no_underscore(s, true);
}

/// A leading underscore changes nothing: `_a_b` and `a_b` give the same name.
pub proof fn lemma_camel_leading_underscore(s: Seq<u8>)
    ensures
        camel(seq![95u8] + s) == camel(s),
{
    assert((seq![95u8] + s).drop_first() =~= s);
}

proof fn lemma_camel_from_doubled(a: Seq<u8>, b: Seq<u8>, at_start: bool)
    ensures
        camel_from(a + seq![95u8, 95u8] + b, at_start) == camel_from(a + seq![95u8] + b, at_start),
    decreases a.len(),
{
    let x = a + seq![95u8, 95u8] + b;
    let y = a + seq![95u8] + b;
    if a.len() == 0 {
        assert(x[0] == 95u8);
        assert(y[0] == 95u8);
        assert(x.drop_first()[0] == 95u8);
        assert(x.drop_first().drop_first() =~= b);
        assert((a + seq![95u8, 95u8] + b).drop_first() =~= seq![95u8] + b);
        assert((a + seq![95u8] + b) =~= seq![95u8] + b);
        assert((seq![95u8] + b).drop_first() =~= b);
        assert(camel_from(x.drop_first(), true) == camel_from(b, true));
        assert(camel_from(y, at_start) == camel_from(b, true));
    } else {
        assert(x[0] == a[0]);
        assert(y[0] == a[0]);
        assert((a + seq![95u8, 95u8] + b).drop_first() =~= a.drop_first() + seq![95u8, 95u8] + b);
        assert((a + seq![95u8] + b).drop_first() =~= a.drop_first() + seq![95u8] + b);
        lemma_camel_from_doubled(a.drop_first(), b, true);
        lemma_camel_from_doubled(a.drop_first(), b, false);
        assert(x.drop_first() == a.drop_first() + seq![95u8, 95u8] + b);
        assert(y.drop_first() == a.drop_first() + seq![95u8] + b);
    }
}

/// A doubled underscore acts as a single one: `a__b` and `a_b` give the same name.
pub proof fn lemma_camel_doubled_underscore(a: Seq<u8>, b: Seq<u8>)
    ensures
        camel(a + seq![95u8, 95u8] + b) == camel(a + seq![95u8] + b),
{
    lemma_camel_from_doubled(a, b, true);
}

} // verus!

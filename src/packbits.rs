//! The byte-oriented run-length codec used for the scanlines of layered
//! image files.

use vstd::prelude::*;

verus! {

/// Everything a run-length stream expands to, before it is cut to a line.
///
/// A control byte `n` below 128 is followed by `n + 1` literal bytes (fewer
/// when the stream ends early); a byte above 128 repeats the next byte
/// `257 - n` times; 128 is skipped.
pub open spec fn packbits_stream(input: Seq<u8>) -> Seq<u8>
    decreases input.len(),
{
    if input.len() == 0 {
        Seq::<u8>::empty()
    } else {
        let n = input[0];
        if n < 128 {
            let count = n as int + 1;
            if input.len() - 1 < count {
                input.subrange(1, input.len() as int)
            } else {
                input.subrange(1, 1 + count) + packbits_stream(input.subrange(1 + count, input.len() as int))
            }
        } else if n > 128 {
            if input.len() < 2 {
                Seq::<u8>::empty()
            } else {
                Seq::new((257 - n) as nat, |j: int| input[1]) + packbits_stream(
                    input.subrange(2, input.len() as int),
                )
            }
        } else {
            packbits_stream(input.subrange(1, input.len() as int))
        }
    }
}

/// The line that decoding `input` over `line` leaves: the expanded stream,
/// cut to the line's length; positions the stream does not reach keep their
/// byte.
pub open spec fn packbits_line(input: Seq<u8>, line: Seq<u8>) -> Seq<u8> {
    let s = packbits_stream(input);
    Seq::new(line.len(), |j: int| if j < s.len() { s[j] } else { line[j] })
}

/// Decodes one run-length line into `output`, stopping when the output is
/// full or the input runs out.
pub fn decode_packbits(input: &[u8], output: &mut Vec<u8>)
    ensures
        final(output)@ == packbits_line(input@, old(output)@),
{
    let ghost orig = output@;
    let ghost whole = packbits_stream(input@);
    let ghost mut prod = Seq::<u8>::empty();
    let mut i: usize = 0;
    let mut o: usize = 0;
    proof {
        assert(input@.subrange(0, input@.len() as int) =~= input@);
    }
    while i < input.len() && o < output.len()
        invariant
            i <= input.len(),
            output@.len() == orig.len(),
            whole == packbits_stream(input@),
            whole == prod + packbits_stream(input@.subrange(i as int, input@.len() as int)),
            o as int == if prod.len() < orig.len() { prod.len() as int } else { orig.len() as int },
            forall|j: int| 0 <= j < o ==> output@[j] == prod[j],
            forall|j: int| o <= j < output@.len() ==> output@[j] == orig[j],
        decreases input.len() - i,
    {
        let ghost rest = input@.subrange(i as int, input@.len() as int);
        let n = input[i];
        i = i + 1;
        proof {
            assert(rest[0] == n);
            assert(rest.subrange(1, rest.len() as int) =~= input@.subrange(i as int, input@.len() as int));
        }
        if n < 128 {
            let count: usize = n as usize + 1;
            let avail: usize = input.len() - i;
            let take: usize = if count < avail { count } else { avail };
            let ghost lit = input@.subrange(i as int, i + take);
            proof {
                assert(lit =~= rest.subrange(1, 1 + take));
            }
            let mut k: usize = 0;
            while k < take && k < output.len() - o
                invariant
                    k <= take,
                    i + take <= input.len(),
                    o < output@.len(),
                    o <= prod.len(),
                    output@.len() == orig.len(),
                    lit == input@.subrange(i as int, i + take),
                    forall|j: int| 0 <= j < o ==> output@[j] == prod[j],
                    forall|j: int| o <= j < o + k ==> output@[j] == lit[j - o],
                    forall|j: int| o + k <= j < output@.len() ==> output@[j] == orig[j],
                decreases take - k,
            {
                output.set(o + k, input[i + k]);
                k = k + 1;
            }
            proof {
                if count < avail {
                    assert(input@.subrange(i + count, input@.len() as int) =~= rest.subrange(
                        1 + count,
                        rest.len() as int,
                    ));
                    let tail = packbits_stream(input@.subrange(i + count, input@.len() as int));
                    assert(packbits_stream(rest) == lit + tail);
                    assert(prod + (lit + tail) =~= (prod + lit) + tail);
                } else {
                    if count == avail {
                        assert(rest.subrange(1 + count, rest.len() as int) =~= Seq::<u8>::empty());
                        assert(packbits_stream(Seq::<u8>::empty()) == Seq::<u8>::empty());
                        assert(lit =~= rest.subrange(1, 1 + count));
                        assert(packbits_stream(rest) =~= lit + Seq::<u8>::empty());
                    }
                    assert(packbits_stream(rest) =~= lit);
                }
                prod = prod + lit;
            }
            let room: usize = output.len() - o;
            o = if take < room { o + take } else { output.len() };
            i = i + take;
            if take < count {
                proof {
                    assert(input@.subrange(i as int, input@.len() as int) =~= Seq::<u8>::empty());
                    assert(whole =~= prod + Seq::<u8>::empty());
                }
            }
        } else if n > 128 {
            let count: usize = 257 - n as usize;
            if i < input.len() {
                let val = input[i];
                i = i + 1;
                let ghost run = Seq::new(count as nat, |j: int| val);
                proof {
                    assert(input@.subrange(i as int, input@.len() as int) =~= rest.subrange(
                        2,
                        rest.len() as int,
                    ));
                }
                let mut k: usize = 0;
                while k < count && k < output.len() - o
                    invariant
                        k <= count,
                        o < output@.len(),
                        o <= prod.len(),
                        output@.len() == orig.len(),
                        run == Seq::new(count as nat, |j: int| val),
                        forall|j: int| 0 <= j < o ==> output@[j] == prod[j],
                        forall|j: int| o <= j < o + k ==> output@[j] == run[j - o],
                        forall|j: int| o + k <= j < output@.len() ==> output@[j] == orig[j],
                    decreases count - k,
                {
                    output.set(o + k, val);
                    k = k + 1;
                }
                proof {
                    assert(run =~= Seq::new((257 - n) as nat, |j: int| rest[1]));
                    let tail = packbits_stream(input@.subrange(i as int, input@.len() as int));
                    assert(packbits_stream(rest) == run + tail);
                    assert(prod + (run + tail) =~= (prod + run) + tail);
                    prod = prod + run;
                }
                let room: usize = output.len() - o;
                o = if count < room { o + count } else { output.len() };
            } else {
                proof {
                    assert(input@.subrange(i as int, input@.len() as int) =~= Seq::<u8>::empty());
                    assert(whole =~= prod + Seq::<u8>::empty());
                }
            }
        } else {
            proof {
                assert(packbits_stream(rest) == packbits_stream(
                    input@.subrange(i as int, input@.len() as int),
                ));
            }
        }
    }
    proof {
        if i >= input.len() {
            assert(input@.subrange(i as int, input@.len() as int) =~= Seq::<u8>::empty());
            assert(whole =~= prod);
        }
    }
    assert(output@ =~= packbits_line(input@, orig));
}

} // verus!

//! RecordIO-style record codec: each record on the wire is the ASCII decimal
//! length of the payload, a single newline, then exactly that many payload
//! bytes.  The `Framer` consumes a byte stream incrementally and emits each
//! completed payload; `encode_record` produces the framing.

use vstd::prelude::*;

verus! {

/// Decimal digit bytes of `n`, most significant first, no leading zeros.
pub open spec fn dec_digits(n: nat) -> Seq<u8>
    decreases n,
{
    if n < 10 {
        seq![(48 + n) as u8]
    } else {
        dec_digits(n / 10).push((48 + n % 10) as u8)
    }
}

/// The framing of one record: decimal length, newline, payload.
pub open spec fn spec_frame(payload: Seq<u8>) -> Seq<u8> {
    dec_digits(payload.len()) + seq![10u8] + payload
}

/// The framing of a sequence of records, concatenated in order.
pub open spec fn spec_frame_all(payloads: Seq<Seq<u8>>) -> Seq<u8>
    decreases payloads.len(),
{
    if payloads.len() == 0 {
        Seq::empty()
    } else {
        spec_frame(payloads[0]) + spec_frame_all(payloads.drop_first())
    }
}

/// Abstract state of the framer.  While `reading_len` holds, `len_acc` is the
/// value of the length digits seen so far and `have_digit` says whether any
/// digit was seen; otherwise `need` bytes of the current record body are still
/// missing and `buf` holds the body bytes already consumed.
#[verifier::ext_equal]
pub struct FramerV {
    pub reading_len: bool,
    pub have_digit: bool,
    pub len_acc: nat,
    pub need: nat,
    pub buf: Seq<u8>,
}

/// The state of a framer between records.
pub open spec fn clean_framer() -> FramerV {
    FramerV { reading_len: true, have_digit: false, len_acc: 0, need: 0, buf: Seq::empty() }
}

/// One step of the decoder: `None` is a framing error (a length line that
/// holds a non-digit, no digit at all, or a length above `usize::MAX`);
/// otherwise the new state together with the payload completed by this byte,
/// if any.
pub open spec fn spec_push(f: FramerV, b: u8) -> Option<(FramerV, Option<Seq<u8>>)> {
    if f.reading_len {
        if b == 10 {
            if !f.have_digit {
                None
            } else if f.len_acc == 0 {
                Some((clean_framer(), Some(Seq::empty())))
            } else {
                Some(
                    (
                        FramerV {
                            reading_len: false,
                            have_digit: false,
                            len_acc: 0,
                            need: f.len_acc,
                            buf: Seq::empty(),
                        },
                        None,
                    ),
                )
            }
        } else if 48 <= b && b <= 57 {
            let d = (b - 48) as nat;
            if f.len_acc * 10 + d <= usize::MAX {
                Some(
                    (
                        FramerV {
                            reading_len: true,
                            have_digit: true,
                            len_acc: f.len_acc * 10 + d,
                            need: 0,
                            buf: Seq::empty(),
                        },
                        None,
                    ),
                )
            } else {
                None
            }
        } else {
            None
        }
    } else {
        let buf2 = f.buf.push(b);
        if f.need <= 1 {
            Some((clean_framer(), Some(buf2)))
        } else {
            Some(
                (
                    FramerV {
                        reading_len: false,
                        have_digit: false,
                        len_acc: 0,
                        need: (f.need - 1) as nat,
                        buf: buf2,
                    },
                    None,
                ),
            )
        }
    }
}

/// Decoding a whole byte sequence: the final state and the payloads emitted,
/// in order, or `None` if any step is a framing error.
pub open spec fn spec_feed(f: FramerV, input: Seq<u8>) -> Option<(FramerV, Seq<Seq<u8>>)>
    decreases input.len(),
{
    if input.len() == 0 {
        Some((f, Seq::empty()))
    } else {
        match spec_push(f, input[0]) {
            None => None,
            Some((f1, emitted)) => match spec_feed(f1, input.drop_first()) {
                None => None,
                Some((f2, recs)) => match emitted {
                    Some(r) => Some((f2, seq![r] + recs)),
                    None => Some((f2, recs)),
                },
            },
        }
    }
}

/// A malformed length line: a non-digit byte, an empty digit string before
/// the newline, or a length that does not fit the machine.
#[derive(Debug, PartialEq, Eq, Structural, Clone, Copy)]
pub enum FrameError {
    BadLength,
}

/// Incremental decoder for the record framing.
pub struct Framer {
    reading_len: bool,
    have_digit: bool,
    len_acc: usize,
    need: usize,
    buf: Vec<u8>,
}

impl View for Framer {
    type V = FramerV;

    closed spec fn view(&self) -> FramerV {
        if self.reading_len {
            FramerV {
                reading_len: true,
                have_digit: self.have_digit,
                len_acc: self.len_acc as nat,
                need: 0,
                buf: Seq::empty(),
            }
        } else {
            FramerV {
                reading_len: false,
                have_digit: false,
                len_acc: 0,
                need: self.need as nat,
                buf: self.buf@,
            }
        }
    }
}

impl Framer {
    pub fn new() -> (f: Framer)
        ensures
            f@ == clean_framer(),
    {
        let f = Framer {
            reading_len: true,
            have_digit: false,
            len_acc: 0,
            need: 0,
            buf: Vec::new(),
        };
        proof {
            assert(f@ =~= clean_framer());
        }
        f
    }

    /// Consume one byte.  On success the completed payload is returned when
    /// this byte finishes a record; a framing error leaves the state as it
    /// was.
    pub fn push_byte(&mut self, b: u8) -> (r: Result<Option<Vec<u8>>, FrameError>)
        ensures
            match spec_push(old(self)@, b) {
                Some(p) => {
                    &&& r is Ok
                    &&& final(self)@ == p.0
                    &&& match p.1 {
                        Some(rec) => r->Ok_0 is Some && r->Ok_0->0@ == rec,
                        None => r->Ok_0 is None,
                    }
                },
                None => r is Err && final(self)@ == old(self)@,
            },
    {
        if self.reading_len {
            if b == 10 {
                if !self.have_digit {
                    Err(FrameError::BadLength)
                } else if self.len_acc == 0 {
                    self.have_digit = false;
                    proof {
                        assert(final(self)@ =~= clean_framer());
                    }
                    Ok(Some(Vec::new()))
                } else {
                    self.reading_len = false;
                    self.have_digit = false;
                    self.need = self.len_acc;
                    self.len_acc = 0;
                    self.buf.clear();
                    Ok(None)
                }
            } else if 48 <= b && b <= 57 {
                let d = (b - 48) as usize;
                if self.len_acc <= (usize::MAX - d) / 10 {
                    self.len_acc = self.len_acc * 10 + d;
                    self.have_digit = true;
                    Ok(None)
                } else {
                    proof {
                        let acc = old(self).len_acc;
                        assert(acc * 10 + (b - 48) > usize::MAX) by (nonlinear_arith)
                            requires
                                acc > (usize::MAX - (b - 48) as usize) / 10,
                                48 <= b <= 57,
                        ;
                    }
                    Err(FrameError::BadLength)
                }
            } else {
                Err(FrameError::BadLength)
            }
        } else {
            self.buf.push(b);
            if self.need <= 1 {
                self.reading_len = true;
                self.have_digit = false;
                self.len_acc = 0;
                self.need = 0;
                let rec = self.buf.split_off(0);
                proof {
                    assert(final(self)@ =~= clean_framer());
                }
                Ok(Some(rec))
            } else {
                self.need = self.need - 1;
                Ok(None)
            }
        }
    }

    /// Consume a chunk of bytes, returning every payload completed inside it,
    /// in order.
    pub fn push_chunk(&mut self, input: &[u8]) -> (r: Result<Vec<Vec<u8>>, FrameError>)
        ensures
            match spec_feed(old(self)@, input@) {
                Some(p) => {
                    &&& r is Ok
                    &&& final(self)@ == p.0
                    &&& r->Ok_0.deep_view() == p.1
                },
                None => r is Err,
            },
    {
        let mut out: Vec<Vec<u8>> = Vec::new();
        let mut i: usize = 0;
        proof {
            assert(input@.take(0) =~= Seq::<u8>::empty());
            assert(out.deep_view() =~= Seq::<Seq<u8>>::empty());
        }
        while i < input.len()
            invariant
                i <= input@.len(),
                spec_feed(old(self)@, input@.take(i as int)) == Some((self@, out.deep_view())),
            decreases input@.len() - i,
        {
            let ghost pre = self@;
            let ghost pre_out = out.deep_view();
            let b = input[i];
            let step = self.push_byte(b);
            proof {
                lemma_feed_append(old(self)@, input@.take(i as int), seq![b]);
                assert(input@.take(i as int) + seq![b] =~= input@.take(i + 1));
                lemma_feed_one(pre, b);
            }
            match step {
                Ok(emitted) => {
                    match emitted {
                        Some(rec) => {
                            let ghost rec_v = rec@;
                            proof {
                                assert(rec.deep_view() =~= rec_v);
                            }
                            out.push(rec);
                            proof {
                                assert forall|j: int|
                                    0 <= j < out.deep_view().len() implies out.deep_view()[j]
                                    == (pre_out + seq![rec_v])[j] by {
                                    if j == pre_out.len() {
                                        assert(out@[j] =~= out@.last());
                                    }
                                }
                                assert(out.deep_view() =~= pre_out + seq![rec_v]);
                                assert(spec_feed(old(self)@, input@.take(i + 1)) == Some(
                                    (self@, out.deep_view()),
                                ));
                            }
                        },
                        None => {
                            proof {
                                assert(pre_out + Seq::<Seq<u8>>::empty() =~= pre_out);
                                assert(spec_feed(old(self)@, input@.take(i + 1)) == Some(
                                    (self@, out.deep_view()),
                                ));
                            }
                        },
                    }
                },
                Err(e) => {
                    proof {
                        lemma_feed_append(
                            old(self)@,
                            input@.take(i + 1),
                            input@.skip(i + 1),
                        );
                        assert(input@.take(i + 1) + input@.skip(i + 1) =~= input@);
                    }
                    return Err(e);
                },
            }
            i = i + 1;
        }
        proof {
            assert(input@.take(input@.len() as int) =~= input@);
        }
        Ok(out)
    }
}

/// Appends `dec_digits(n)` to `out`.
fn push_decimal(out: &mut Vec<u8>, n: usize)
    ensures
        final(out)@ == old(out)@ + dec_digits(n as nat),
    decreases n,
{
    if n < 10 {
        out.push(48 + n as u8);
        proof {
            assert(final(out)@ =~= old(out)@ + dec_digits(n as nat));
        }
    } else {
        push_decimal(out, n / 10);
        out.push(48 + (n % 10) as u8);
        proof {
            assert(final(out)@ =~= old(out)@ + dec_digits(n as nat));
        }
    }
}

/// Frames one payload: its decimal length, a newline, then the payload.
pub fn encode_record(payload: &[u8]) -> (r: Vec<u8>)
    ensures
        r@ == spec_frame(payload@),
{
    let mut out: Vec<u8> = Vec::new();
    push_decimal(&mut out, payload.len());
    out.push(10);
    out.extend_from_slice(payload);
    proof {
        assert(out@ =~= spec_frame(payload@));
    }
    out
}

/// Decoding distributes over concatenation of the input.
pub proof fn lemma_feed_append(f: FramerV, a: Seq<u8>, b: Seq<u8>)
    ensures
        spec_feed(f, a + b) == match spec_feed(f, a) {
            None => None::<(FramerV, Seq<Seq<u8>>)>,
            Some(p) => match spec_feed(p.0, b) {
                None => None,
                Some(q) => Some((q.0, p.1 + q.1)),
            },
        },
    decreases a.len(),
{
    if a.len() == 0 {
        assert(a + b =~= b);
        match spec_feed(f, b) {
            None => {},
            Some(q) => {
                assert(Seq::<Seq<u8>>::empty() + q.1 =~= q.1);
            },
        }
    } else {
        assert((a + b)[0] == a[0]);
        match spec_push(f, a[0]) {
            None => {},
            Some((f1, emitted)) => {
                lemma_feed_append(f1, a.drop_first(), b);
                assert((a + b).drop_first() =~= a.drop_first() + b);
                match spec_feed(f1, a.drop_first()) {
                    None => {},
                    Some(p1) => {
                        match spec_feed(p1.0, b) {
                            None => {},
                            Some(q) => {
                                match emitted {
                                    Some(r) => {
                                        assert(seq![r] + (p1.1 + q.1) =~= (seq![r] + p1.1)
                                            + q.1);
                                    },
                                    None => {},
                                }
                            },
                        }
                    },
                }
            },
        }
    }
}

/// Decoding a single byte is exactly one decoder step.
pub proof fn lemma_feed_one(f: FramerV, b: u8)
    ensures
        spec_feed(f, seq![b]) == match spec_push(f, b) {
            None => None::<(FramerV, Seq<Seq<u8>>)>,
            Some(p) => Some(
                (
                    p.0,
                    match p.1 {
                        Some(r) => seq![r],
                        None => Seq::empty(),
                    },
                ),
            ),
        },
{
    assert(seq![b][0] == b);
    assert(seq![b].drop_first() =~= Seq::<u8>::empty());
    match spec_push(f, b) {
        None => {},
        Some((f1, emitted)) => {
            assert(spec_feed(f1, seq![b].drop_first()) == Some(
                (f1, Seq::<Seq<u8>>::empty()),
            ));
            match emitted {
                Some(r) => {
                    assert(seq![r] + Seq::<Seq<u8>>::empty() =~= seq![r]);
                },
                None => {},
            }
        },
    }
}

/// Feeding the canonical digit bytes of `n` to a fresh framer accumulates
/// exactly `n`.
proof fn lemma_feed_digits(n: nat)
    requires
        n <= usize::MAX,
    ensures
        spec_feed(clean_framer(), dec_digits(n)) == Some(
            (
                FramerV {
                    reading_len: true,
                    have_digit: true,
                    len_acc: n,
                    need: 0,
                    buf: Seq::empty(),
                },
                Seq::<Seq<u8>>::empty(),
            ),
        ),
    decreases n,
{
    if n < 10 {
        let b = (48 + n) as u8;
        assert(dec_digits(n) == seq![b]);
        lemma_feed_one(clean_framer(), b);
        assert(spec_feed(clean_framer(), dec_digits(n)) == Some(
            (
                FramerV {
                    reading_len: true,
                    have_digit: true,
                    len_acc: n,
                    need: 0,
                    buf: Seq::empty(),
                },
                Seq::<Seq<u8>>::empty(),
            ),
        ));
    } else {
        lemma_feed_digits(n / 10);
        let d = (n % 10) as u8;
        let b = (48 + n % 10) as u8;
        assert(dec_digits(n) == dec_digits(n / 10).push(b));
        lemma_feed_append(clean_framer(), dec_digits(n / 10), seq![b]);
        assert(dec_digits(n / 10) + seq![b] =~= dec_digits(n / 10).push(b));
        let mid = FramerV {
            reading_len: true,
            have_digit: true,
            len_acc: n / 10,
            need: 0,
            buf: Seq::empty(),
        };
        assert((n / 10) * 10 + n % 10 == n) by {
            vstd::arithmetic::div_mod::lemma_fundamental_div_mod(n as int, 10);
        };
        lemma_feed_one(mid, b);
        assert(spec_feed(mid, seq![b]) == Some(
            (
                FramerV {
                    reading_len: true,
                    have_digit: true,
                    len_acc: n,
                    need: 0,
                    buf: Seq::empty(),
                },
                Seq::<Seq<u8>>::empty(),
            ),
        ));
        assert(Seq::<Seq<u8>>::empty() + Seq::<Seq<u8>>::empty() =~= Seq::<
            Seq<u8>,
        >::empty());
    }
}

/// Feeding exactly the missing body bytes completes the record.
proof fn lemma_feed_body(buf: Seq<u8>, s: Seq<u8>)
    requires
        s.len() >= 1,
    ensures
        spec_feed(
            FramerV {
                reading_len: false,
                have_digit: false,
                len_acc: 0,
                need: s.len(),
                buf: buf,
            },
            s,
        ) == Some((clean_framer(), seq![buf + s])),
    decreases s.len(),
{
    let f = FramerV {
        reading_len: false,
        have_digit: false,
        len_acc: 0,
        need: s.len(),
        buf: buf,
    };
    if s.len() == 1 {
        assert(s =~= seq![s[0]]);
        lemma_feed_one(f, s[0]);
        assert(buf.push(s[0]) =~= buf + s);
        assert(seq![buf.push(s[0])] =~= seq![buf + s]);
    } else {
        lemma_feed_body(buf.push(s[0]), s.drop_first());
        assert(buf.push(s[0]) + s.drop_first() =~= buf + s);
    }
}

/// Feeding the framing of one record to a fresh framer yields exactly that
/// record and leaves the framer fresh.
proof fn lemma_feed_one_record(p: Seq<u8>)
    requires
        p.len() <= usize::MAX,
    ensures
        spec_feed(clean_framer(), spec_frame(p)) == Some((clean_framer(), seq![p])),
{
    lemma_feed_digits(p.len());
    let digit_state = FramerV {
        reading_len: true,
        have_digit: true,
        len_acc: p.len(),
        need: 0,
        buf: Seq::empty(),
    };
    lemma_feed_append(clean_framer(), dec_digits(p.len()), seq![10u8] + p);
    assert(dec_digits(p.len()) + (seq![10u8] + p) =~= spec_frame(p));
    lemma_feed_one(digit_state, 10u8);
    if p.len() == 0 {
        assert(seq![10u8] + p =~= seq![10u8]);
        assert(spec_feed(digit_state, seq![10u8] + p) == Some(
            (clean_framer(), seq![Seq::<u8>::empty()]),
        ));
        assert(seq![Seq::<u8>::empty()] =~= seq![p]);
    } else {
        let body_state = FramerV {
            reading_len: false,
            have_digit: false,
            len_acc: 0,
            need: p.len(),
            buf: Seq::empty(),
        };
        lemma_feed_append(digit_state, seq![10u8], p);
        lemma_feed_body(Seq::empty(), p);
        assert(Seq::<u8>::empty() + p =~= p);
        assert(seq![Seq::<u8>::empty() + p] =~= seq![p]);
        assert(Seq::<Seq<u8>>::empty() + seq![p] =~= seq![p]);
    }
    assert(Seq::<Seq<u8>>::empty() + seq![p] =~= seq![p]);
}

/// Round trip of the record codec: for any finite sequence of payloads,
/// concatenating each payload's framing and feeding the bytes through a fresh
/// framer yields exactly those payloads, in order, and leaves the framer
/// fresh.
pub proof fn lemma_framer_round_trip(payloads: Seq<Seq<u8>>)
    requires
        forall|i: int| 0 <= i < payloads.len() ==> (#[trigger] payloads[i]).len() <= usize::MAX,
    ensures
        spec_feed(clean_framer(), spec_frame_all(payloads)) == Some((clean_framer(), payloads)),
    decreases payloads.len(),
{
    if payloads.len() == 0 {
        assert(spec_frame_all(payloads) == Seq::<u8>::empty());
        assert(Seq::<Seq<u8>>::empty() =~= payloads);
    } else {
        lemma_feed_one_record(payloads[0]);
        lemma_framer_round_trip(payloads.drop_first());
        lemma_feed_append(clean_framer(), spec_frame(payloads[0]), spec_frame_all(payloads.drop_first()));
        assert(seq![payloads[0]] + payloads.drop_first() =~= payloads);
    }
}

} // verus!

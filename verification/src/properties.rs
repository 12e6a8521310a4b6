//! Properties of the walker and the mutator that cut across modules: a
//! message assembled from well-formed sections is walked to exactly its
//! end, and record insertion is additive, never idempotent.

use vstd::prelude::*;
use crate::parser::{
    additional_section_end, answer_section_end, authority_section_end, is_pointer_byte,
    label_run_len, lemma_label_run_in_bounds, lemma_name_len_bound, name_len, question_len,
    question_section_end, rr_len, skip_questions, skip_rrs,
};
use crate::response_writer::spliced;
use crate::wire::u16_at;

verus! {

/// A stand-alone wire-encoded question: the walker's skip computed at its
/// start covers exactly the whole blob.
pub open spec fn is_question_wire(q: Seq<u8>) -> bool {
    question_len(q, 0) == Some(q.len() as int)
}

/// A stand-alone wire-encoded resource record: the walker's skip computed
/// at its start covers exactly the whole blob.
pub open spec fn is_rr_wire(rec: Seq<u8>) -> bool {
    rr_len(rec, 0) == Some(rec.len() as int)
}

/// The bytes of a message's sections, one blob per question or record.
pub open spec fn concat_blobs(bs: Seq<Seq<u8>>) -> Seq<u8>
    decreases bs.len(),
{
    if bs.len() == 0 {
        Seq::empty()
    } else {
        bs[0] + concat_blobs(bs.drop_first())
    }
}

/// A label run reads only the bytes it covers: it computes the same length
/// at an offset of a larger buffer holding the same bytes.
proof fn lemma_label_run_frame(blob: Seq<u8>, s: Seq<u8>, off: int, i: int)
    requires
        0 <= off,
        off + blob.len() <= s.len(),
        s.subrange(off, off + blob.len()) == blob,
        0 <= i,
        label_run_len(blob, i) is Some,
    ensures
        label_run_len(s, off + i) == label_run_len(blob, i),
    decreases blob.len() - i,
{
    lemma_label_run_in_bounds(blob, i);
    assert(s[off + i] == blob[i]) by {
        assert(s.subrange(off, off + blob.len())[i] == s[off + i]);
    }
    if blob[i] == 0 {
    } else {
        let next = i + 1 + blob[i];
        lemma_label_run_frame(blob, s, off, next);
    }
}

/// A domain-name skip reads only the blob it starts in: it computes the
/// same length at an offset of a larger buffer holding the same bytes.
proof fn lemma_name_len_frame(blob: Seq<u8>, s: Seq<u8>, off: int)
    requires
        0 <= off,
        off + blob.len() <= s.len(),
        s.subrange(off, off + blob.len()) == blob,
        name_len(blob, 0) is Some,
    ensures
        name_len(s, off) == name_len(blob, 0),
{
    assert(s[off] == blob[0]) by {
        assert(s.subrange(off, off + blob.len())[0] == s[off]);
    }
    if !is_pointer_byte(blob[0]) {
        lemma_label_run_frame(blob, s, off, 0);
    }
}

/// A question blob keeps its length wherever it stands in a message.
proof fn lemma_question_frame(blob: Seq<u8>, s: Seq<u8>, off: int)
    requires
        is_question_wire(blob),
        0 <= off,
        off + blob.len() <= s.len(),
        s.subrange(off, off + blob.len()) == blob,
    ensures
        question_len(s, off) == Some(blob.len() as int),
{
    lemma_name_len_frame(blob, s, off);
}

/// A resource-record blob keeps its length wherever it stands in a message:
/// its name and its RDLENGTH field are read from its own bytes alone.
proof fn lemma_rr_frame(blob: Seq<u8>, s: Seq<u8>, off: int)
    requires
        is_rr_wire(blob),
        0 <= off,
        off + blob.len() <= s.len(),
        s.subrange(off, off + blob.len()) == blob,
    ensures
        rr_len(s, off) == Some(blob.len() as int),
{
    assert(name_len(blob, 0) is Some);
    lemma_name_len_frame(blob, s, off);
    lemma_name_len_bound(blob, 0);
    let n = name_len(blob, 0).unwrap();
    assert(n + 10 <= blob.len());
    assert(s.subrange(off, off + blob.len())[n + 8] == s[off + n + 8]);
    assert(s.subrange(off, off + blob.len())[n + 9] == s[off + n + 9]);
    assert(u16_at(s, off + n + 8) == u16_at(blob, n + 8));
}

/// Walking `bs.len()` questions over the concatenation of the blobs of
/// `bs` lands exactly at the concatenation's end.
proof fn lemma_skip_questions_concat(s: Seq<u8>, off: int, bs: Seq<Seq<u8>>)
    requires
        forall|i: int| 0 <= i < bs.len() ==> is_question_wire(#[trigger] bs[i]),
        0 <= off,
        off + concat_blobs(bs).len() <= s.len(),
        s.subrange(off, off + concat_blobs(bs).len()) == concat_blobs(bs),
    ensures
        skip_questions(s, off, bs.len() as nat) == Some(off + concat_blobs(bs).len()),
    decreases bs.len(),
{
    if bs.len() != 0 {
        let b0 = bs[0];
        let rest = bs.drop_first();
        let whole = concat_blobs(bs);
        assert(whole == b0 + concat_blobs(rest));
        assert(s.subrange(off, off + b0.len()) =~= b0) by {
            assert(forall|j: int| 0 <= j < b0.len() ==> #[trigger] s.subrange(
                off,
                off + whole.len(),
            )[j] == s[off + j]);
        }
        lemma_question_frame(b0, s, off);
        assert forall|j: int| 0 <= j < concat_blobs(rest).len() implies s.subrange(
            off + b0.len(),
            off + whole.len(),
        )[j] == concat_blobs(rest)[j] by {
            assert(s.subrange(off, off + whole.len())[b0.len() + j] == s[off + b0.len() + j]);
            assert(whole[b0.len() + j] == concat_blobs(rest)[j]);
        }
        assert(s.subrange(off + b0.len(), off + whole.len()) =~= concat_blobs(rest));
        lemma_skip_questions_concat(s, off + b0.len(), rest);
    }
}

/// Walking `bs.len()` resource records over the concatenation of the blobs
/// of `bs` lands exactly at the concatenation's end.
proof fn lemma_skip_rrs_concat(s: Seq<u8>, off: int, bs: Seq<Seq<u8>>)
    requires
        forall|i: int| 0 <= i < bs.len() ==> is_rr_wire(#[trigger] bs[i]),
        0 <= off,
        off + concat_blobs(bs).len() <= s.len(),
        s.subrange(off, off + concat_blobs(bs).len()) == concat_blobs(bs),
    ensures
        skip_rrs(s, off, bs.len() as nat) == Some(off + concat_blobs(bs).len()),
    decreases bs.len(),
{
    if bs.len() != 0 {
        let b0 = bs[0];
        let rest = bs.drop_first();
        let whole = concat_blobs(bs);
        assert(whole == b0 + concat_blobs(rest));
        assert(s.subrange(off, off + b0.len()) =~= b0) by {
            assert(forall|j: int| 0 <= j < b0.len() ==> #[trigger] s.subrange(
                off,
                off + whole.len(),
            )[j] == s[off + j]);
        }
        lemma_rr_frame(b0, s, off);
        assert forall|j: int| 0 <= j < concat_blobs(rest).len() implies s.subrange(
            off + b0.len(),
            off + whole.len(),
        )[j] == concat_blobs(rest)[j] by {
            assert(s.subrange(off, off + whole.len())[b0.len() + j] == s[off + b0.len() + j]);
            assert(whole[b0.len() + j] == concat_blobs(rest)[j]);
        }
        assert(s.subrange(off + b0.len(), off + whole.len()) =~= concat_blobs(rest));
        lemma_skip_rrs_concat(s, off + b0.len(), rest);
    }
}

/// For any well-formed message — a twelve-byte header whose counts match a
/// list of stand-alone question encodings and three lists of stand-alone
/// record encodings, laid out back to back — the walker's section ends are
/// the section boundaries, and the computed additional-section end is
/// exactly the true end of the message.
pub proof fn lemma_walker_reaches_message_end(
    s: Seq<u8>,
    qs: Seq<Seq<u8>>,
    answers: Seq<Seq<u8>>,
    authorities: Seq<Seq<u8>>,
    additionals: Seq<Seq<u8>>,
)
    requires
        forall|i: int| 0 <= i < qs.len() ==> is_question_wire(#[trigger] qs[i]),
        forall|i: int| 0 <= i < answers.len() ==> is_rr_wire(#[trigger] answers[i]),
        forall|i: int| 0 <= i < authorities.len() ==> is_rr_wire(#[trigger] authorities[i]),
        forall|i: int| 0 <= i < additionals.len() ==> is_rr_wire(#[trigger] additionals[i]),
        u16_at(s, 4) == qs.len(),
        u16_at(s, 6) == answers.len(),
        u16_at(s, 8) == authorities.len(),
        u16_at(s, 10) == additionals.len(),
        s.len() >= 12,
        s == s.subrange(0, 12) + concat_blobs(qs) + concat_blobs(answers) + concat_blobs(
            authorities,
        ) + concat_blobs(additionals),
    ensures
        question_section_end(s) == Some(12 + concat_blobs(qs).len() as int),
        answer_section_end(s) == Some(12 + (concat_blobs(qs) + concat_blobs(answers)).len() as int),
        authority_section_end(s) == Some(
            12 + (concat_blobs(qs) + concat_blobs(answers) + concat_blobs(authorities)).len() as int,
        ),
        additional_section_end(s) == Some(s.len() as int),
{
    let cq = concat_blobs(qs);
    let can = concat_blobs(answers);
    let cns = concat_blobs(authorities);
    let car = concat_blobs(additionals);
    assert(s.len() == 12 + cq.len() + can.len() + cns.len() + car.len());
    let o1 = 12 + cq.len() as int;
    let o2 = o1 + can.len() as int;
    let o3 = o2 + cns.len() as int;
    assert(s.subrange(12, o1) =~= cq);
    assert(s.subrange(o1, o2) =~= can);
    assert(s.subrange(o2, o3) =~= cns);
    assert(s.subrange(o3, s.len() as int) =~= car);
    lemma_skip_questions_concat(s, 12, qs);
    lemma_skip_rrs_concat(s, o1, answers);
    lemma_skip_rrs_concat(s, o2, authorities);
    lemma_skip_rrs_concat(s, o3, additionals);
}

/// Splicing a record in at the same offset twice yields the record twice:
/// insertion is additive, never idempotent.
pub proof fn lemma_insertion_not_idempotent(s: Seq<u8>, off: int, rec: Seq<u8>)
    requires
        0 <= off <= s.len(),
    ensures
        spliced(spliced(s, off, rec), off, rec) == s.subrange(0, off) + rec + rec + s.subrange(
            off,
            s.len() as int,
        ),
        rec.len() > 0 ==> spliced(spliced(s, off, rec), off, rec) != spliced(s, off, rec),
{
    assert(spliced(spliced(s, off, rec), off, rec) =~= s.subrange(0, off) + rec + rec + s.subrange(
        off,
        s.len() as int,
    ));
    assert(spliced(spliced(s, off, rec), off, rec).len() == s.len() + 2 * rec.len());
    assert(spliced(s, off, rec).len() == s.len() + rec.len());
}

} // verus!

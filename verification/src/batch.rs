//! Batched execution of write operations.
//!
//! A chunk size of zero runs everything as one atomic unit; otherwise the
//! operations are split into consecutive chunks of at most that size, run
//! strictly in order. Each chunk is atomic on its own, but there is no
//! atomicity across chunks: a failing chunk leaves every earlier chunk
//! durably applied, applies nothing of its own, and aborts the rest.

use vstd::prelude::*;

use crate::cipher::Cipher;
use crate::error::StorageError;
use crate::store::{apply_ops, apply_ops_ciphers, apply_ops_folders, Store, WriteOp};

verus! {

/// The default chunk size when the environment provides none.
pub const DEFAULT_CHUNK_SIZE: usize = 30;

/// A decimal digit.
pub open spec fn is_ascii_digit(c: char) -> bool {
    '0' <= c && c <= '9'
}

/// A non-empty run of decimal digits.
pub open spec fn is_decimal(s: Seq<char>) -> bool {
    s.len() > 0 && forall|i: int| 0 <= i < s.len() ==> is_ascii_digit(s[i])
}

/// The number a run of decimal digits writes.
pub open spec fn decimal_value(s: Seq<char>) -> int
    decreases s.len(),
{
    if s.len() == 0 {
        0
    } else {
        decimal_value(s.drop_last()) * 10 + (s.last() as int - '0' as int)
    }
}

proof fn lemma_decimal_value_nonneg(s: Seq<char>)
    requires
        forall|i: int| 0 <= i < s.len() ==> is_ascii_digit(s[i]),
    ensures
        decimal_value(s) >= 0,
    decreases s.len(),
{
    if s.len() > 0 {
        lemma_decimal_value_nonneg(s.drop_last());
    }
}

/// A digit run's value never shrinks as more digits follow.
proof fn lemma_decimal_value_extend(s: Seq<char>, i: int)
    requires
        0 <= i <= s.len(),
        forall|j: int| 0 <= j < s.len() ==> is_ascii_digit(s[j]),
    ensures
        decimal_value(s.take(i)) <= decimal_value(s),
    decreases s.len() - i,
{
    if i < s.len() {
        assert(s.take(i + 1).drop_last() =~= s.take(i));
        assert(s.take(i + 1).last() == s[i]);
        lemma_decimal_value_nonneg(s.take(i));
        lemma_decimal_value_extend(s, i + 1);
    } else {
        assert(s.take(i) =~= s);
    }
}

/// The chunk size a configuration string asks for: the number it writes in
/// decimal, when it writes one that a machine word holds; the default
/// otherwise, and when no configuration is present.
pub open spec fn spec_batch_size(raw: Option<String>) -> int {
    match raw {
        None => DEFAULT_CHUNK_SIZE as int,
        Some(s) => {
            let digits = if s@.len() > 0 && s@[0] == '+' {
                s@.drop_first()
            } else {
                s@
            };
            if is_decimal(digits) && decimal_value(digits) <= usize::MAX as int {
                decimal_value(digits)
            } else {
                DEFAULT_CHUNK_SIZE as int
            }
        },
    }
}

/// Reads the configured chunk size: an optional leading plus sign, then
/// decimal digits. Anything else, and a number too large for a machine
/// word, falls back to the default.
pub fn batch_size_of(raw: Option<String>) -> (n: usize)
    ensures
        n as int == spec_batch_size(raw),
{
    let text = match raw {
        None => {
            return DEFAULT_CHUNK_SIZE;
        },
        Some(text) => text,
    };
    let len = text.as_str().unicode_len();
    let start: usize = if len > 0 && text.as_str().get_char(0) == '+' {
        1
    } else {
        0
    };
    let ghost digits = if start == 1 {
        text@.drop_first()
    } else {
        text@
    };
    if len == start {
        proof {
            assert(digits.len() == 0);
        }
        return DEFAULT_CHUNK_SIZE;
    }
    let mut value: usize = 0;
    let mut i: usize = start;
    while i < len
        invariant
            raw == Some(text),
            (start == 1) <==> (text@.len() > 0 && text@[0] == '+'),
            digits == (if start == 1 {
                text@.drop_first()
            } else {
                text@
            }),
            start <= 1,
            start <= i <= len,
            len == text@.len(),
            digits.len() == len - start,
            forall|j: int| 0 <= j < i - start ==> is_ascii_digit(digits[j]),
            value as int == decimal_value(digits.take(i - start)),
        decreases len - i,
    {
        let c = text.as_str().get_char(i);
        proof {
            assert(c == digits[i - start]);
        }
        let u = c as u32;
        if u < '0' as u32 || u > '9' as u32 {
            proof {
                assert(!is_ascii_digit(digits[i - start]));
                assert(!is_decimal(digits));
            }
            return DEFAULT_CHUNK_SIZE;
        }
        let d = (u - '0' as u32) as usize;
        proof {
            assert(d as int == digits[i - start] as int - '0' as int);
            assert(digits.take(i - start + 1).drop_last() =~= digits.take(i - start));
            assert(digits.take(i - start + 1).last() == digits[i - start]);
        }
        if value > usize::MAX / 10 || (value == usize::MAX / 10 && d > usize::MAX % 10) {
            proof {
                assert(value * 10 + d > usize::MAX);
                assert(decimal_value(digits.take(i - start + 1)) > usize::MAX as int);
                if is_decimal(digits) {
                    lemma_decimal_value_extend(digits, i - start + 1);
                }
            }
            return DEFAULT_CHUNK_SIZE;
        }
        proof {
            assert(value * 10 + d <= usize::MAX);
        }
        value = value * 10 + d;
        i += 1;
    }
    proof {
        assert(digits.take(digits.len() as int) =~= digits);
        assert(is_decimal(digits));
    }
    value
}

/// The operation sequences of a chunk list, in order.
pub open spec fn chunks_view(chunks: Seq<Vec<WriteOp>>) -> Seq<Seq<WriteOp>> {
    chunks.map_values(|c: Vec<WriteOp>| c@)
}

/// Splits `ops` into consecutive chunks: all of `ops`, in order, nothing
/// else; every chunk at most `chunk_size` long and only the last one
/// shorter; a chunk size of zero yields a single chunk holding everything.
pub fn chunk_ops(ops: Vec<WriteOp>, chunk_size: usize) -> (r: Vec<Vec<WriteOp>>)
    ensures
        chunks_view(r@).flatten() =~= ops@,
        ops@.len() == 0 ==> r@.len() == 0,
        chunk_size == 0 && ops@.len() > 0 ==> r@.len() == 1 && r@[0]@ =~= ops@,
        chunk_size > 0 ==> forall|i: int|
            0 <= i < r@.len() ==> (#[trigger] r@[i])@.len() > 0 && r@[i]@.len() <= chunk_size,
        chunk_size > 0 ==> forall|i: int|
            0 <= i < r@.len() - 1 ==> (#[trigger] r@[i])@.len() == chunk_size,
{
    let ghost ops0 = ops@;
    let mut rest = ops;
    let mut out: Vec<Vec<WriteOp>> = Vec::new();
    proof {
        assert(chunks_view(out@) =~= Seq::<Seq<WriteOp>>::empty());
        assert(chunks_view(out@).flatten() =~= Seq::<WriteOp>::empty());
    }
    while rest.len() > 0
        invariant
            chunks_view(out@).flatten() + rest@ =~= ops0,
            ops0.len() == 0 ==> out@.len() == 0,
            rest@.len() < ops0.len() ==> out@.len() > 0,
            chunk_size == 0 && ops0.len() > 0 && rest@.len() == 0 ==> out@.len() == 1,
            chunk_size == 0 && rest@.len() > 0 ==> out@.len() == 0,
            chunk_size > 0 ==> forall|i: int|
                0 <= i < out@.len() ==> (#[trigger] out@[i])@.len() > 0 && out@[i]@.len()
                    <= chunk_size,
            chunk_size > 0 ==> forall|i: int|
                0 <= i < out@.len() && (rest@.len() > 0 || i < out@.len() - 1) ==> (
                #[trigger] out@[i])@.len() == chunk_size,
        decreases rest.len(),
    {
        let take = if chunk_size == 0 || chunk_size > rest.len() {
            rest.len()
        } else {
            chunk_size
        };
        let mut chunk: Vec<WriteOp> = Vec::new();
        let ghost rest_before = rest@;
        let mut j: usize = 0;
        while j < take
            invariant
                j <= take,
                take <= rest_before.len(),
                chunk@.len() == j,
                rest@ =~= rest_before.skip(j as int),
                chunk@ + rest@ =~= rest_before,
            decreases take - j,
        {
            let ghost prev = rest@;
            let op = rest.remove(0);
            proof {
                assert(rest@ =~= prev.drop_first());
                assert(op == prev[0]);
            }
            chunk.push(op);
            proof {
                assert(rest_before.skip(j as int).drop_first() =~= rest_before.skip(j + 1));
                assert(chunk@ + rest@ =~= rest_before);
            }
            j += 1;
        }
        proof {
            let ghost cv = chunks_view(out@);
            assert(chunks_view(out@.push(chunk)) =~= cv.push(chunk@));
            cv.lemma_flatten_push(chunk@);
            assert(cv.push(chunk@).flatten() =~= cv.flatten() + chunk@);
        }
        out.push(chunk);
    }
    proof {
        assert(chunks_view(out@).flatten() + rest@ =~= chunks_view(out@).flatten());
        if out@.len() == 1 {
            chunks_view(out@).lemma_flatten_one_element();
        }
    }
    out
}

/// The position of the first failing chunk; the length when none fails.
pub open spec fn first_failure(outcomes: Seq<bool>) -> int
    decreases outcomes.len(),
{
    if outcomes.len() == 0 {
        0
    } else if !outcomes[0] {
        0
    } else {
        1 + first_failure(outcomes.drop_first())
    }
}

proof fn lemma_first_failure_at(outcomes: Seq<bool>, i: int)
    requires
        0 <= i < outcomes.len(),
        forall|j: int| 0 <= j < i ==> outcomes[j],
        !outcomes[i],
    ensures
        first_failure(outcomes) == i,
    decreases i,
{
    if i > 0 {
        lemma_first_failure_at(outcomes.drop_first(), i - 1);
    }
}

proof fn lemma_first_failure_none(outcomes: Seq<bool>)
    requires
        forall|j: int| 0 <= j < outcomes.len() ==> outcomes[j],
    ensures
        first_failure(outcomes) == outcomes.len(),
    decreases outcomes.len(),
{
    if outcomes.len() > 0 {
        lemma_first_failure_none(outcomes.drop_first());
    }
}

proof fn lemma_apply_ops_folders_concat(
    m: Map<Seq<char>, crate::import::Folder>,
    a: Seq<WriteOp>,
    b: Seq<WriteOp>,
)
    ensures
        apply_ops_folders(m, a + b) == apply_ops_folders(apply_ops_folders(m, a), b),
    decreases a.len(),
{
    if a.len() == 0 {
        assert(a + b =~= b);
    } else {
        assert((a + b)[0] == a[0]);
        assert((a + b).drop_first() =~= a.drop_first() + b);
        lemma_apply_ops_folders_concat(
            crate::store::apply_op_folders(m, a[0]),
            a.drop_first(),
            b,
        );
    }
}

proof fn lemma_apply_ops_ciphers_concat(
    m: Map<Seq<char>, Cipher>,
    a: Seq<WriteOp>,
    b: Seq<WriteOp>,
)
    ensures
        apply_ops_ciphers(m, a + b) == apply_ops_ciphers(apply_ops_ciphers(m, a), b),
    decreases a.len(),
{
    if a.len() == 0 {
        assert(a + b =~= b);
    } else {
        assert((a + b)[0] == a[0]);
        assert((a + b).drop_first() =~= a.drop_first() + b);
        lemma_apply_ops_ciphers_concat(
            crate::store::apply_op_ciphers(m, a[0]),
            a.drop_first(),
            b,
        );
    }
}

/// Runs the chunks in order against the store, stopping at the first chunk
/// whose outcome reports failure. The caller supplies each chunk's outcome
/// as the persistence layer reported it. Exactly the chunks before the
/// first failure are applied, whole; the failing chunk applies nothing and
/// the chunks after it never run.
pub fn run_chunks(store: &mut Store, chunks: Vec<Vec<WriteOp>>, outcomes: &Vec<bool>) -> (r:
    Result<(), StorageError>)
    requires
        outcomes@.len() == chunks@.len(),
    ensures
        r is Ok <==> first_failure(outcomes@) == outcomes@.len(),
        r is Err ==> r == Err::<(), StorageError>(StorageError::ChunkFailed),
        final(store).folder_map() == apply_ops_folders(
            old(store).folder_map(),
            chunks_view(chunks@).take(first_failure(outcomes@)).flatten(),
        ),
        final(store).cipher_map() == apply_ops_ciphers(
            old(store).cipher_map(),
            chunks_view(chunks@).take(first_failure(outcomes@)).flatten(),
        ),
{
    let ghost chunks0 = chunks@;
    let ghost fm0 = old(store).folder_map();
    let ghost cm0 = old(store).cipher_map();
    let n = chunks.len();
    let mut rem = chunks;
    let mut i: usize = 0;
    while i < n
        invariant
            n == chunks0.len(),
            n == outcomes@.len(),
            i <= n,
            chunks0 == chunks@,
            fm0 == old(store).folder_map(),
            cm0 == old(store).cipher_map(),
            rem@ =~= chunks0.skip(i as int),
            forall|j: int| 0 <= j < i ==> outcomes@[j],
            store.folder_map() == apply_ops_folders(
                fm0,
                chunks_view(chunks0).take(i as int).flatten(),
            ),
            store.cipher_map() == apply_ops_ciphers(
                cm0,
                chunks_view(chunks0).take(i as int).flatten(),
            ),
        decreases n - i,
    {
        if !outcomes[i] {
            proof {
                lemma_first_failure_at(outcomes@, i as int);
            }
            return Err(StorageError::ChunkFailed);
        }
        let ghost prev = rem@;
        let chunk = rem.remove(0);
        proof {
            assert(rem@ =~= prev.drop_first());
            assert(chunk == chunks0[i as int]);
        }
        let ghost fm_before = store.folder_map();
        let ghost cm_before = store.cipher_map();
        apply_ops(store, chunk);
        proof {
            let cv = chunks_view(chunks0);
            assert(cv.take(i + 1) =~= cv.take(i as int).push(chunk@));
            cv.take(i as int).lemma_flatten_push(chunk@);
            assert(cv.take(i + 1).flatten() =~= cv.take(i as int).flatten() + chunk@);
            lemma_apply_ops_folders_concat(fm0, cv.take(i as int).flatten(), chunk@);
            lemma_apply_ops_ciphers_concat(cm0, cv.take(i as int).flatten(), chunk@);
        }
        i += 1;
    }
    proof {
        lemma_first_failure_none(outcomes@);
    }
    Ok(())
}

} // verus!

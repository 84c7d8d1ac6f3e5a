//! Polynomials over GF(2^8), secret splitting and Lagrange reconstruction.
use vstd::prelude::*;

use crate::entropy::random_byte;
use crate::error::TpeaError;
use crate::gf::{gf_add, gf_div_spec, gf_mul, gf_mul_spec, gf_pow254, gf_sub};
use crate::strategy::ChunkType;

verus! {

/// `x^n` in the field.
pub open spec fn gf_pow_spec(x: u8, n: nat) -> u8
    decreases n,
{
    if n == 0 {
        1
    } else {
        gf_mul_spec(gf_pow_spec(x, (n - 1) as nat), x)
    }
}

/// The sum of the first `n` terms `c[i] * x^i`.
pub open spec fn eval_prefix(c: Seq<u8>, x: u8, n: nat) -> u8
    decreases n,
{
    if n == 0 {
        0
    } else {
        eval_prefix(c, x, (n - 1) as nat) ^ gf_mul_spec(c[n - 1], gf_pow_spec(x, (n - 1) as nat))
    }
}

/// The value at `x` of the polynomial with coefficients `c`, constant term first.
pub open spec fn eval_poly_spec(c: Seq<u8>, x: u8) -> u8 {
    eval_prefix(c, x, c.len())
}

/// Evaluates the polynomial with coefficients `coeffs` (constant term first) at `x`.
pub fn eval_poly(coeffs: &[u8], x: u8) -> (r: u8)
    ensures
        r == eval_poly_spec(coeffs@, x),
{
    let mut result: u8 = 0;
    let mut power: usize = 0;
    while power < coeffs.len()
        invariant
            power <= coeffs@.len(),
            result == eval_prefix(coeffs@, x, power as nat),
        decreases coeffs@.len() - power,
    {
        let mut x_pow: u8 = 1;
        let mut t: usize = 0;
        while t < power
            invariant
                t <= power,
                x_pow == gf_pow_spec(x, t as nat),
            decreases power - t,
        {
            x_pow = gf_mul(x_pow, x);
            t = t + 1;
        }
        result = gf_add(result, gf_mul(coeffs[power], x_pow));
        power = power + 1;
    }
    result
}

/// One share: a nonzero ID and one polynomial value per secret byte.
#[derive(Debug, Clone)]
pub struct Share {
    pub id: u8,
    pub typ: ChunkType,
    pub data: Vec<u8>,
}

/// The polynomial for secret byte `b` with the higher coefficients `row`.
pub open spec fn secret_poly(b: u8, row: Seq<u8>) -> Seq<u8> {
    seq![b] + row
}

/// `shares` are the `n` shares of `secret` under the per-byte higher coefficients `rows`:
/// share `j` has ID `j + 1` and, at byte `i`, the value of byte `i`'s polynomial at its ID.
pub open spec fn is_sharing(secret: Seq<u8>, rows: Seq<Seq<u8>>, n: u8, shares: Seq<Share>) -> bool {
    &&& shares.len() == n
    &&& forall|j: int|
        #![trigger shares[j]]
        0 <= j < n ==> {
            &&& shares[j].id == j + 1
            &&& shares[j].typ == ChunkType::SignificantSliceDerived1
            &&& shares[j].data@.len() == secret.len()
        }
    &&& forall|j: int, i: int|
        0 <= j < n && 0 <= i < secret.len() ==> #[trigger] shares[j].data@[i] == eval_poly_spec(
            secret_poly(secret[i], rows[i]),
            (j + 1) as u8,
        )
}

/// `rows` supplies `k - 1` higher coefficients for each of `len` secret bytes.
pub open spec fn rows_fit(rows: Seq<Seq<u8>>, len: nat, k: u8) -> bool {
    &&& rows.len() == len
    &&& forall|i: int| 0 <= i < len ==> #[trigger] rows[i].len() == k - 1
}

pub open spec fn valid_threshold(k: u8, n: u8) -> bool {
    1 < k && k <= n
}

/// Splits `secret` into `share_n` shares with the given higher coefficients, one row
/// of `threshold_k - 1` per secret byte.
pub fn split_with_coefficients(
    secret: &[u8],
    threshold_k: u8,
    share_n: u8,
    coeffs: &Vec<Vec<u8>>,
) -> (r: Vec<Share>)
    requires
        valid_threshold(threshold_k, share_n),
        rows_fit(coeffs@.map_values(|v: Vec<u8>| v@), secret@.len(), threshold_k),
    ensures
        is_sharing(secret@, coeffs@.map_values(|v: Vec<u8>| v@), share_n, r@),
{
    let ghost rows = coeffs@.map_values(|v: Vec<u8>| v@);
    let mut polys: Vec<Vec<u8>> = Vec::new();
    let mut i: usize = 0;
    while i < secret.len()
        invariant
            i <= secret@.len(),
            rows == coeffs@.map_values(|v: Vec<u8>| v@),
            rows_fit(rows, secret@.len(), threshold_k),
            polys@.len() == i,
            forall|t: int| 0 <= t < i ==> #[trigger] polys@[t]@ == secret_poly(secret@[t], rows[t]),
        decreases secret@.len() - i,
    {
        let mut p: Vec<u8> = Vec::new();
        p.push(secret[i]);
        let row = &coeffs[i];
        let mut c: usize = 0;
        while c < row.len()
            invariant
                c <= row@.len(),
                p@ == seq![secret@[i as int]] + row@.subrange(0, c as int),
            decreases row@.len() - c,
        {
            p.push(row[c]);
            c = c + 1;
            assert(row@.subrange(0, c as int) == row@.subrange(0, c - 1) + seq![row@[c - 1]]);
        }
        assert(row@.subrange(0, row@.len() as int) == row@);
        assert(rows[i as int] == row@);
        polys.push(p);
        i = i + 1;
    }
    let mut shares: Vec<Share> = Vec::new();
    let mut j: u8 = 0;
    while j < share_n
        invariant
            j <= share_n,
            shares@.len() == j,
            polys@.len() == secret@.len(),
            forall|t: int| 0 <= t < secret@.len() ==> #[trigger] polys@[t]@ == secret_poly(secret@[t], rows[t]),
            forall|s: int|
                #![trigger shares@[s]]
                0 <= s < j ==> {
                    &&& shares@[s].id == s + 1
                    &&& shares@[s].typ == ChunkType::SignificantSliceDerived1
                    &&& shares@[s].data@.len() == secret@.len()
                },
            forall|s: int, t: int|
                0 <= s < j && 0 <= t < secret@.len() ==> #[trigger] shares@[s].data@[t] == eval_poly_spec(
                    secret_poly(secret@[t], rows[t]),
                    (s + 1) as u8,
                ),
        decreases share_n - j,
    {
        let id: u8 = j + 1;
        let mut data: Vec<u8> = Vec::new();
        let mut t: usize = 0;
        while t < polys.len()
            invariant
                t <= polys@.len(),
                polys@.len() == secret@.len(),
                forall|q: int| 0 <= q < secret@.len() ==> #[trigger] polys@[q]@ == secret_poly(secret@[q], rows[q]),
                data@.len() == t,
                forall|q: int| 0 <= q < t ==> #[trigger] data@[q] == eval_poly_spec(
                    secret_poly(secret@[q], rows[q]),
                    id,
                ),
            decreases polys@.len() - t,
        {
            let y = eval_poly(polys[t].as_slice(), id);
            data.push(y);
            t = t + 1;
        }
        shares.push(Share { id, typ: ChunkType::SignificantSliceDerived1, data });
        j = j + 1;
    }
    shares
}

/// Splits `secret` into `share_n` shares with IDs `1..=share_n`, any `threshold_k` of
/// which recover it; every higher coefficient is a fresh random byte.
pub fn split_secret(secret: &[u8], threshold_k: u8, share_n: u8) -> (r: Result<Vec<Share>, TpeaError>)
    ensures
        !valid_threshold(threshold_k, share_n) ==> r == Err::<Vec<Share>, TpeaError>(
            TpeaError::InvalidThreshold,
        ),
        valid_threshold(threshold_k, share_n) ==> r is Ok && exists|rows: Seq<Seq<u8>>|
            rows_fit(rows, secret@.len(), threshold_k) && is_sharing(
                secret@,
                rows,
                share_n,
                r->Ok_0@,
            ),
{
    if !(threshold_k > 1 && threshold_k <= share_n) {
        return Err(TpeaError::InvalidThreshold);
    }
    let mut coeffs: Vec<Vec<u8>> = Vec::new();
    let mut i: usize = 0;
    while i < secret.len()
        invariant
            i <= secret@.len(),
            valid_threshold(threshold_k, share_n),
            coeffs@.len() == i,
            forall|t: int| 0 <= t < i ==> #[trigger] coeffs@[t]@.len() == threshold_k - 1,
        decreases secret@.len() - i,
    {
        let mut row: Vec<u8> = Vec::new();
        let mut c: u8 = 1;
        while c < threshold_k
            invariant
                1 <= c <= threshold_k,
                row@.len() == c - 1,
            decreases threshold_k - c,
        {
            row.push(random_byte());
            c = c + 1;
        }
        coeffs.push(row);
        i = i + 1;
    }
    let ghost rows = coeffs@.map_values(|v: Vec<u8>| v@);
    assert(rows_fit(rows, secret@.len(), threshold_k));
    let shares = split_with_coefficients(secret, threshold_k, share_n, &coeffs);
    assert(is_sharing(secret@, rows, share_n, shares@));
    Ok(shares)
}

/// The IDs of `s`, in order.
pub open spec fn ids_of(s: Seq<Share>) -> Seq<u8> {
    s.map_values(|sh: Share| sh.id)
}

/// Byte `i` of every share of `s`, in order.
pub open spec fn column(s: Seq<Share>, i: int) -> Seq<u8> {
    s.map_values(|sh: Share| sh.data@[i])
}

pub open spec fn ids_distinct(s: Seq<Share>) -> bool {
    forall|a: int, b: int| 0 <= a < b < s.len() ==> #[trigger] s[a].id != #[trigger] s[b].id
}

pub open spec fn lengths_equal(s: Seq<Share>) -> bool {
    forall|a: int| 0 <= a < s.len() ==> #[trigger] s[a].data@.len() == s[0].data@.len()
}

/// The product of `xs[m]` over `m < upto`, `m != j`: the numerator of basis `j` at zero
/// (in characteristic 2, `0 - x` is `x`).
pub open spec fn basis_num(xs: Seq<u8>, j: int, upto: nat) -> u8
    decreases upto,
{
    if upto == 0 {
        1
    } else if upto - 1 == j {
        basis_num(xs, j, (upto - 1) as nat)
    } else {
        gf_mul_spec(basis_num(xs, j, (upto - 1) as nat), xs[upto - 1])
    }
}

/// The product of `xs[j] - xs[m]` over `m < upto`, `m != j`: the denominator of basis `j`.
pub open spec fn basis_den(xs: Seq<u8>, j: int, upto: nat) -> u8
    decreases upto,
{
    if upto == 0 {
        1
    } else if upto - 1 == j {
        basis_den(xs, j, (upto - 1) as nat)
    } else {
        gf_mul_spec(basis_den(xs, j, (upto - 1) as nat), xs[j] ^ xs[upto - 1])
    }
}

/// The Lagrange basis polynomial `j` of the points `xs`, evaluated at zero.
pub open spec fn basis_at_zero(xs: Seq<u8>, j: int) -> u8 {
    gf_div_spec(basis_num(xs, j, xs.len()), basis_den(xs, j, xs.len()))
}

/// The sum of `ys[j] * basis_j(0)` over `j < upto`.
pub open spec fn lagrange_prefix(xs: Seq<u8>, ys: Seq<u8>, upto: nat) -> u8
    decreases upto,
{
    if upto == 0 {
        0
    } else {
        lagrange_prefix(xs, ys, (upto - 1) as nat) ^ gf_mul_spec(
            ys[upto - 1],
            basis_at_zero(xs, upto - 1),
        )
    }
}

/// The value at zero of the polynomial through the points `(xs[j], ys[j])`.
pub open spec fn lagrange_at_zero(xs: Seq<u8>, ys: Seq<u8>) -> u8 {
    lagrange_prefix(xs, ys, xs.len())
}

/// What reconstruction yields from `s`: byte by byte, Lagrange interpolation at zero.
pub open spec fn recovered(s: Seq<Share>) -> Seq<u8> {
    Seq::new(s[0].data@.len(), |i: int| lagrange_at_zero(ids_of(s), column(s, i)))
}

/// Whether two of `shares` carry the same ID.
fn has_duplicate_id(shares: &[Share]) -> (r: bool)
    ensures
        r == !ids_distinct(shares@),
{
    let mut seen: Vec<bool> = Vec::new();
    while seen.len() < 256
        invariant
            seen@.len() <= 256,
            forall|v: int| 0 <= v < seen@.len() ==> !#[trigger] seen@[v],
        decreases 256 - seen@.len(),
    {
        seen.push(false);
    }
    let mut j: usize = 0;
    while j < shares.len()
        invariant
            j <= shares@.len(),
            seen@.len() == 256,
            forall|a: int, b: int|
                0 <= a < b < j ==> #[trigger] shares@[a].id != #[trigger] shares@[b].id,
            forall|v: int|
                0 <= v < 256 ==> (#[trigger] seen@[v] <==> exists|m: int|
                    0 <= m < j && shares@[m].id == v),
        decreases shares@.len() - j,
    {
        let id = shares[j].id;
        if seen[id as usize] {
            assert(seen@[id as int]);
            let ghost m = choose|m: int| 0 <= m < j && shares@[m].id == id;
            assert(shares@[m].id == shares@[j as int].id);
            return true;
        }
        seen.set(id as usize, true);
        j = j + 1;
    }
    false
}

/// Whether all of `shares` (non-empty) have payloads of one length.
fn lengths_match(shares: &[Share]) -> (r: bool)
    requires
        shares@.len() > 0,
    ensures
        r == lengths_equal(shares@),
{
    let len = shares[0].data.len();
    let mut j: usize = 0;
    while j < shares.len()
        invariant
            j <= shares@.len(),
            len == shares@[0].data@.len(),
            forall|a: int| 0 <= a < j ==> #[trigger] shares@[a].data@.len() == len,
        decreases shares@.len() - j,
    {
        if shares[j].data.len() != len {
            return false;
        }
        j = j + 1;
    }
    true
}

/// Recovers the secret from `shares` by Lagrange interpolation at zero, byte by byte.
/// Fewer shares than the threshold give a result of the right length but the wrong
/// bytes: the threshold cannot be read from the shares.
pub fn recover_secret(shares: &[Share]) -> (r: Result<Vec<u8>, TpeaError>)
    ensures
        shares@.len() == 0 ==> r == Err::<Vec<u8>, TpeaError>(TpeaError::EmptyShareSet),
        shares@.len() > 0 && !ids_distinct(shares@) ==> r == Err::<Vec<u8>, TpeaError>(
            TpeaError::DuplicateShareID,
        ),
        shares@.len() > 0 && ids_distinct(shares@) && !lengths_equal(shares@) ==> r == Err::<
            Vec<u8>,
            TpeaError,
        >(TpeaError::MismatchedShareLength),
        shares@.len() > 0 && ids_distinct(shares@) && lengths_equal(shares@) ==> r is Ok
            && r->Ok_0@ == recovered(shares@),
{
    if shares.len() == 0 {
        return Err(TpeaError::EmptyShareSet);
    }
    if has_duplicate_id(shares) {
        return Err(TpeaError::DuplicateShareID);
    }
    if !lengths_match(shares) {
        return Err(TpeaError::MismatchedShareLength);
    }
    let ghost s = shares@;
    let ghost xs = ids_of(s);
    let k = shares.len();
    let len = shares[0].data.len();
    let mut secret: Vec<u8> = Vec::new();
    let mut i: usize = 0;
    while i < len
        invariant
            s == shares@,
            xs == ids_of(s),
            k == s.len(),
            k > 0,
            len == s[0].data@.len(),
            lengths_equal(s),
            i <= len,
            secret@.len() == i,
            forall|t: int| 0 <= t < i ==> #[trigger] secret@[t] == lagrange_at_zero(xs, column(s, t)),
        decreases len - i,
    {
        let ghost ys = column(s, i as int);
        let mut rec_byte: u8 = 0;
        let mut j: usize = 0;
        while j < k
            invariant
                s == shares@,
                xs == ids_of(s),
                ys == column(s, i as int),
                k == s.len(),
                len == s[0].data@.len(),
                lengths_equal(s),
                i < len,
                j <= k,
                rec_byte == lagrange_prefix(xs, ys, j as nat),
            decreases k - j,
        {
            let xj = shares[j].id;
            let yj = shares[j].data[i];
            let mut num: u8 = 1;
            let mut den: u8 = 1;
            let mut m: usize = 0;
            while m < k
                invariant
                    s == shares@,
                    xs == ids_of(s),
                    k == s.len(),
                    j < k,
                    xj == xs[j as int],
                    m <= k,
                    num == basis_num(xs, j as int, m as nat),
                    den == basis_den(xs, j as int, m as nat),
                decreases k - m,
            {
                if m != j {
                    let xm = shares[m].id;
                    num = gf_mul(num, xm);
                    den = gf_mul(den, gf_sub(xj, xm));
                }
                m = m + 1;
            }
            let basis = gf_mul(num, gf_pow254(den));
            rec_byte = gf_add(rec_byte, gf_mul(yj, basis));
            j = j + 1;
        }
        assert(xs.len() == k);
        secret.push(rec_byte);
        i = i + 1;
    }
    assert(secret@ =~= recovered(s));
    Ok(secret)
}

/// The shares of `s` at the indices `picks`, in that order.
pub open spec fn select(s: Seq<Share>, picks: Seq<int>) -> Seq<Share> {
    picks.map_values(|p: int| s[p])
}

/// Any non-empty selection of distinct shares of one sharing, however few, is accepted
/// by reconstruction: the IDs differ and the payloads agree in length, so the result is
/// a byte sequence as long as the secret (below the threshold it is not the secret).
pub proof fn lemma_selection_recoverable(
    secret: Seq<u8>,
    rows: Seq<Seq<u8>>,
    n: u8,
    shares: Seq<Share>,
    picks: Seq<int>,
)
    requires
        is_sharing(secret, rows, n, shares),
        picks.len() > 0,
        forall|t: int| 0 <= t < picks.len() ==> 0 <= #[trigger] picks[t] < n,
        forall|a: int, b: int| 0 <= a < b < picks.len() ==> #[trigger] picks[a] != #[trigger] picks[b],
    ensures
        ids_distinct(select(shares, picks)),
        lengths_equal(select(shares, picks)),
        recovered(select(shares, picks)).len() == secret.len(),
{
    let sel = select(shares, picks);
    assert forall|a: int, b: int| 0 <= a < b < sel.len() implies #[trigger] sel[a].id
        != #[trigger] sel[b].id by {
        assert(shares[picks[a]].id == picks[a] + 1);
        assert(shares[picks[b]].id == picks[b] + 1);
    }
    assert forall|a: int| 0 <= a < sel.len() implies #[trigger] sel[a].data@.len()
        == sel[0].data@.len() by {
        assert(shares[picks[a]].data@.len() == secret.len());
        assert(shares[picks[0]].data@.len() == secret.len());
    }
    assert(shares[picks[0]].data@.len() == secret.len());
}

} // verus!

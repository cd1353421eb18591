//! Text and naming helpers of the online patch: the id of a game, template
//! substitution, and which engine a game was made with.
use vstd::prelude::*;
use crate::bytes::same_bytes;
use crate::asset::Script;

verus! {

/// What MD5 makes of some bytes.
pub uninterp spec fn md5_of(data: Seq<u8>) -> Seq<u8>;

/// Relies on md5::compute: the digest of `data`, whose `Digest` holds
/// exactly sixteen bytes.
#[verifier::external_body]
fn md5_digest(data: &Vec<u8>) -> (r: Vec<u8>)
    ensures
        r@ == md5_of(data@),
        r@.len() == 16,
{
    md5::compute(data).0.to_vec()
}

/// The lowercase hexadecimal digit of `d`.
pub open spec fn hex_digit(d: u8) -> u8 {
    if d < 10 {
        (48 + d) as u8
    } else {
        (87 + d) as u8
    }
}

/// Each byte as two lowercase hexadecimal digits.
pub open spec fn hex_of(b: Seq<u8>) -> Seq<u8>
    decreases b.len(),
{
    if b.len() == 0 {
        Seq::empty()
    } else {
        hex_of(b.drop_last()) + seq![hex_digit(b.last() / 16), hex_digit(b.last() % 16)]
    }
}

/// Writes each byte as two lowercase hexadecimal digits.
pub fn lower_hex(b: &Vec<u8>) -> (r: Vec<u8>)
    ensures
        r@ == hex_of(b@),
{
    let mut out: Vec<u8> = Vec::new();
    let mut i: usize = 0;
    while i < b.len()
        invariant
            i <= b.len(),
            out@ == hex_of(b@.subrange(0, i as int)),
        decreases b.len() - i,
    {
        assert(b@.subrange(0, i + 1).drop_last() =~= b@.subrange(0, i as int));
        let hi = b[i] / 16;
        let lo = b[i] % 16;
        out.push(if hi < 10 { 48 + hi } else { 87 + hi });
        out.push(if lo < 10 { 48 + lo } else { 87 + lo });
        i = i + 1;
        assert(out@ =~= hex_of(b@.subrange(0, i as int)));
    }
    assert(b@.subrange(0, b.len() as int) =~= b@);
    out
}

/// The id under which the online service knows a game: the MD5 digest of
/// its executable, in lowercase hexadecimal.
pub fn game_id(exe: &Vec<u8>) -> (r: Vec<u8>)
    ensures
        r@ == hex_of(md5_of(exe@)),
{
    lower_hex(&md5_digest(exe))
}

/// Tells whether `t[i..]` starts with `p`.
fn matches_at(t: &Vec<u8>, i: usize, p: &Vec<u8>) -> (r: bool)
    requires
        i <= t.len(),
    ensures
        r == (p.len() <= t.len() - i && t@.subrange(i as int, i + p.len()) == p@),
{
    if p.len() > t.len() - i {
        return false;
    }
    let mut k: usize = 0;
    while k < p.len()
        invariant
            k <= p.len(),
            p.len() <= t.len() - i,
            forall|j: int| 0 <= j < k ==> t@[i + j] == p@[j],
        decreases p.len() - k,
    {
        if t[i + k] != p[k] {
            assert(t@.subrange(i as int, i + p.len())[k as int] != p@[k as int]);
            return false;
        }
        k = k + 1;
    }
    assert(t@.subrange(i as int, i + p.len()) =~= p@);
    true
}

/// `t` with every occurrence of `p`, read from left to right, replaced by
/// `w`. An empty pattern leaves `t` as it is.
pub open spec fn replaced(t: Seq<u8>, p: Seq<u8>, w: Seq<u8>) -> Seq<u8>
    decreases t.len(),
{
    if p.len() == 0 || t.len() == 0 {
        t
    } else if p.len() <= t.len() && t.subrange(0, p.len() as int) == p {
        w + replaced(t.subrange(p.len() as int, t.len() as int), p, w)
    } else {
        seq![t[0]] + replaced(t.subrange(1, t.len() as int), p, w)
    }
}

/// Replaces every occurrence of `p` in `t` by `w`.
pub fn replace_all(t: &Vec<u8>, p: &Vec<u8>, w: &Vec<u8>) -> (r: Vec<u8>)
    ensures
        r@ == replaced(t@, p@, w@),
{
    if p.len() == 0 {
        let mut out: Vec<u8> = Vec::new();
        crate::bytes::put_bytes(&mut out, t);
        assert(out@ =~= t@);
        return out;
    }
    let mut out: Vec<u8> = Vec::new();
    let mut i: usize = 0;
    assert(t@.subrange(0, t.len() as int) =~= t@);
    while i < t.len()
        invariant
            i <= t.len(),
            p.len() > 0,
            out@ + replaced(t@.subrange(i as int, t.len() as int), p@, w@) == replaced(t@, p@, w@),
        decreases t.len() - i,
    {
        let ghost rest = t@.subrange(i as int, t.len() as int);
        let ghost prev = out@;
        if matches_at(t, i, p) {
            assert(rest.subrange(0, p.len() as int) =~= t@.subrange(i as int, i + p.len()));
            assert(rest.subrange(p.len() as int, rest.len() as int) =~= t@.subrange(
                i + p.len(),
                t.len() as int,
            ));
            crate::bytes::put_bytes(&mut out, w);
            i = i + p.len();
            assert(out@ + replaced(t@.subrange(i as int, t.len() as int), p@, w@) =~= prev
                + replaced(rest, p@, w@));
        } else {
            proof {
                if p.len() <= rest.len() {
                    assert(rest.subrange(0, p.len() as int) =~= t@.subrange(i as int, i + p.len()));
                }
            }
            assert(rest.subrange(1, rest.len() as int) =~= t@.subrange(i + 1, t.len() as int));
            out.push(t[i]);
            i = i + 1;
            assert(out@ + replaced(t@.subrange(i as int, t.len() as int), p@, w@) =~= prev
                + replaced(rest, p@, w@));
        }
    }
    assert(t@.subrange(t.len() as int, t.len() as int) =~= Seq::<u8>::empty());
    assert(out@ =~= replaced(t@, p@, w@));
    out
}

/// The engine a fangame was built with, told by the names of its scripts.
#[derive(Debug, Clone, Copy, PartialEq, Eq, Structural)]
pub enum Engine {
    Unknown,
    Renex,
    Verve,
}

/// A name that only the Verve engine gives a script.
pub open spec fn verve_name(n: Seq<u8>) -> bool {
    n == seq![115u8, 97u8, 118u8, 101u8, 95u8, 115u8, 97u8, 118u8, 101u8] || n == seq![112u8, 108u8, 97u8, 121u8, 101u8, 114u8, 95u8, 97u8, 105u8, 114u8, 95u8, 106u8, 117u8, 109u8, 112u8]
}

/// A name that only the Renex engine gives a script.
pub open spec fn renex_name(n: Seq<u8>) -> bool {
    n == seq![99u8, 117u8, 115u8, 116u8, 111u8, 109u8, 95u8, 115u8, 111u8, 117u8, 110u8, 100u8, 95u8, 112u8, 114u8, 111u8, 112u8, 101u8, 114u8, 116u8, 105u8, 101u8, 115u8]
}

/// The engine after looking at the scripts of `s` in order: the last
/// script with a telling name decides.
pub open spec fn engine_of(s: Seq<Option<Script>>) -> Engine
    decreases s.len(),
{
    if s.len() == 0 {
        Engine::Unknown
    } else {
        match s.last() {
            Some(scr) => if verve_name(scr.name@) {
                Engine::Verve
            } else if renex_name(scr.name@) {
                Engine::Renex
            } else {
                engine_of(s.drop_last())
            },
            None => engine_of(s.drop_last()),
        }
    }
}

/// Tells which engine a game was built with.
pub fn detect_engine(scripts: &Vec<Option<Script>>) -> (r: Engine)
    ensures
        r == engine_of(scripts@),
{
    let save_save: Vec<u8> = vec![115u8, 97u8, 118u8, 101u8, 95u8, 115u8, 97u8, 118u8, 101u8];
    let air_jump: Vec<u8> = vec![112u8, 108u8, 97u8, 121u8, 101u8, 114u8, 95u8, 97u8, 105u8, 114u8, 95u8, 106u8, 117u8, 109u8, 112u8];
    let sound_props: Vec<u8> = vec![99u8, 117u8, 115u8, 116u8, 111u8, 109u8, 95u8, 115u8, 111u8, 117u8, 110u8, 100u8, 95u8, 112u8, 114u8, 111u8, 112u8, 101u8, 114u8, 116u8, 105u8, 101u8, 115u8];
    assert(save_save@ =~= seq![115u8, 97u8, 118u8, 101u8, 95u8, 115u8, 97u8, 118u8, 101u8]);
    assert(air_jump@ =~= seq![112u8, 108u8, 97u8, 121u8, 101u8, 114u8, 95u8, 97u8, 105u8, 114u8, 95u8, 106u8, 117u8, 109u8, 112u8]);
    assert(sound_props@ =~= seq![99u8, 117u8, 115u8, 116u8, 111u8, 109u8, 95u8, 115u8, 111u8, 117u8, 110u8, 100u8, 95u8, 112u8, 114u8, 111u8, 112u8, 101u8, 114u8, 116u8, 105u8, 101u8, 115u8]);
    let mut engine = Engine::Unknown;
    let mut i: usize = 0;
    while i < scripts.len()
        invariant
            i <= scripts.len(),
            engine == engine_of(scripts@.subrange(0, i as int)),
            save_save@ == seq![115u8, 97u8, 118u8, 101u8, 95u8, 115u8, 97u8, 118u8, 101u8],
            air_jump@ == seq![112u8, 108u8, 97u8, 121u8, 101u8, 114u8, 95u8, 97u8, 105u8, 114u8, 95u8, 106u8, 117u8, 109u8, 112u8],
            sound_props@ == seq![99u8, 117u8, 115u8, 116u8, 111u8, 109u8, 95u8, 115u8, 111u8, 117u8, 110u8, 100u8, 95u8, 112u8, 114u8, 111u8, 112u8, 101u8, 114u8, 116u8, 105u8, 101u8, 115u8],
        decreases scripts.len() - i,
    {
        assert(scripts@.subrange(0, i + 1).drop_last() =~= scripts@.subrange(0, i as int));
        if let Some(scr) = &scripts[i] {
            if same_bytes(&scr.name, &save_save) || same_bytes(&scr.name, &air_jump) {
                engine = Engine::Verve;
            } else if same_bytes(&scr.name, &sound_props) {
                engine = Engine::Renex;
            }
        }
        i = i + 1;
    }
    assert(scripts@.subrange(0, scripts.len() as int) =~= scripts@);
    engine
}

} // verus!

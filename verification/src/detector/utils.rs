//! Helpers shared by the detectors: following symbolic links, resolving a link's
//! target, and digests of file contents written as lowercase hexadecimal.
use vstd::prelude::*;
use sha2::Digest;
use crate::model::SymlinkStep;
use crate::path::{absolute_link_target, absolute_target};
use crate::text::{chars_eq, from_chars, opt_str, string_of, to_chars};

verus! {

/// The SHA-256 digest of `data`, as the `sha2` crate computes it.
pub uninterp spec fn sha256_digest(data: Seq<u8>) -> Seq<u8>;

/// `sha2::Sha256::digest`: the SHA-256 digest of `data`, which is 32 bytes long
/// (the output size of `Sha256` is `U32`). Nothing else is stated of its bytes: they are
/// named by [`sha256_digest`].
#[verifier::external_body]
fn sha256(data: &[u8]) -> (r: Vec<u8>)
    ensures
        r@ == sha256_digest(data@),
        r@.len() == 32,
{
    sha2::Sha256::digest(data).to_vec()
}

/// The lowercase hexadecimal digit of `n` (below 16).
pub open spec fn hex_char(n: u8) -> char {
    if n < 10 {
        (48 + n) as char
    } else {
        (87 + n) as char
    }
}

/// Each byte of `bytes` as two lowercase hexadecimal digits, high nibble first (what
/// `{:x}` prints for a digest).
pub open spec fn hex(bytes: Seq<u8>) -> Seq<char>
    decreases bytes.len(),
{
    if bytes.len() == 0 {
        seq![]
    } else {
        hex(bytes.drop_last()) + seq![hex_char(bytes.last() / 16), hex_char(bytes.last() % 16)]
    }
}

/// The lowercase hexadecimal digit of `n`.
fn hex_digit(n: u8) -> (r: char)
    requires
        n < 16,
    ensures
        r == hex_char(n),
{
    if n < 10 {
        (48 + n) as char
    } else {
        (87 + n) as char
    }
}

/// Each byte of `bytes` as two lowercase hexadecimal digits.
pub fn hex_string(bytes: &[u8]) -> (r: String)
    ensures
        r@ == hex(bytes@),
{
    let mut out: Vec<char> = Vec::new();
    let mut i: usize = 0;
    while i < bytes.len()
        invariant
            i <= bytes@.len(),
            out@ == hex(bytes@.take(i as int)),
        decreases bytes@.len() - i,
    {
        let b = bytes[i];
        assert(bytes@.take(i + 1).drop_last() =~= bytes@.take(i as int));
        assert(bytes@.take(i + 1).last() == b);
        out.push(hex_digit(b / 16));
        out.push(hex_digit(b % 16));
        i = i + 1;
        assert(out@ =~= hex(bytes@.take(i as int)));
    }
    assert(bytes@.take(i as int) =~= bytes@);
    crate::text::from_chars(out.as_slice())
}

pub proof fn lemma_hex_len(bytes: Seq<u8>)
    ensures
        hex(bytes).len() == 2 * bytes.len(),
    decreases bytes.len(),
{
    if bytes.len() > 0 {
        lemma_hex_len(bytes.drop_last());
    }
}

/// The SHA-256 digest of `data` in lowercase hexadecimal (64 digits).
pub fn sha256_full(data: &[u8]) -> (r: String)
    ensures
        r@ == hex(sha256_digest(data@)),
        r@.len() == 64,
{
    let d = sha256(data);
    proof {
        lemma_hex_len(d@);
    }
    hex_string(d.as_slice())
}

/// The first 16 hexadecimal digits of the SHA-256 digest of `data`.
pub fn sha256_short(data: &[u8]) -> (r: String)
    ensures
        r@ == hex(sha256_digest(data@)).take(16),
{
    let d = sha256(data);
    let ghost full = d@;
    let mut d = d;
    let _rest = d.split_off(8);
    proof {
        lemma_hex_prefix(full, 8);
    }
    hex_string(d.as_slice())
}

/// The digits of the first `n` bytes are the first `2 * n` digits.
pub proof fn lemma_hex_prefix(bytes: Seq<u8>, n: int)
    requires
        0 <= n <= bytes.len(),
    ensures
        hex(bytes.take(n)) == hex(bytes).take(2 * n),
    decreases bytes.len(),
{
    lemma_hex_len(bytes);
    lemma_hex_len(bytes.take(n));
    if n == bytes.len() {
        assert(bytes.take(n) =~= bytes);
        assert(hex(bytes).take(2 * n) =~= hex(bytes));
    } else {
        lemma_hex_prefix(bytes.drop_last(), n);
        assert(bytes.drop_last().take(n) =~= bytes.take(n));
        lemma_hex_len(bytes.drop_last());
        assert(hex(bytes).take(2 * n) =~= hex(bytes.drop_last()).take(2 * n));
    }
}

/// The path reached after following a chain of links from `start`.
pub struct ChainState {
    pub start: String,
    pub steps: Vec<SymlinkStep>,
    pub current: String,
    pub finished: bool,
}

/// What was found at the current path of a chain: whether it is a symbolic link,
/// whether it leads to an existing file, and where the link points when it is one and
/// could be read.
pub struct LinkProbe {
    pub is_symlink: bool,
    pub exists: bool,
    pub target: Option<String>,
}

/// The target recorded in a step of a chain.
pub open spec fn step_target(s: SymlinkStep) -> Option<Seq<char>> {
    opt_str(s.target)
}

/// How many steps of the chain were followed on to their target.
pub open spec fn followed(st: ChainState) -> int {
    if st.finished {
        st.steps@.len() - 1
    } else {
        st.steps@.len() as int
    }
}

/// What holds at every point of following a chain: the first step is at the start; each
/// step after it is at the target of the one before; every followed step has a target;
/// only a symbolic link has a target;
/// and no target was followed twice; an unfinished chain stands at the last target (or
/// at the start); a finished chain ends with a step that has no target or whose target
/// was already followed.
pub open spec fn chain_wf(st: ChainState) -> bool {
    let n = st.steps@.len();
    let k = followed(st);
    &&& st.finished ==> n > 0
    &&& n > 0 ==> st.steps@[0].path@ == st.start@
    &&& forall|i: int| 0 <= i < k ==> #[trigger] step_target(st.steps@[i]) is Some
    &&& forall|i: int| 0 <= i < n && #[trigger] step_target(st.steps@[i]) is Some ==> st.steps@[i].is_symlink
    &&& forall|i: int, j: int|
        0 <= i < j < k ==> step_target(#[trigger] st.steps@[i]) != step_target(#[trigger] st.steps@[j])
    &&& forall|i: int|
        0 < i < n ==> #[trigger] st.steps@[i].path@ == step_target(st.steps@[i - 1])->0
    &&& !st.finished ==> st.current@ == (if n == 0 {
        st.start@
    } else {
        step_target(st.steps@[n - 1])->0
    })
    &&& st.finished ==> (step_target(st.steps@[n - 1]) is None || exists|i: int|
        0 <= i < n - 1 && step_target(#[trigger] st.steps@[i]) == step_target(st.steps@[n - 1]))
}

/// The step recorded at `current` for what was found there.
pub open spec fn probe_step_target(current: Seq<char>, probe: LinkProbe) -> Option<Seq<char>> {
    if probe.is_symlink {
        match probe.target {
            Some(t) => Some(absolute_target(current, t@)),
            None => None,
        }
    } else {
        None
    }
}

/// A chain about to look at `start`.
pub fn chain_start(start: String) -> (r: ChainState)
    ensures
        chain_wf(r),
        r.start@ == start@,
        r.steps@.len() == 0,
        r.current@ == start@,
        !r.finished,
{
    let current = start.clone();
    ChainState { start, steps: Vec::new(), current, finished: false }
}

/// Whether `t` is the target of one of `steps`.
fn target_seen(steps: &Vec<SymlinkStep>, t: &[char]) -> (r: bool)
    ensures
        r == exists|i: int| 0 <= i < steps@.len() && step_target(#[trigger] steps@[i]) == Some(t@),
{
    let mut i: usize = 0;
    while i < steps.len()
        invariant
            i <= steps@.len(),
            forall|k: int| 0 <= k < i ==> step_target(#[trigger] steps@[k]) != Some(t@),
        decreases steps@.len() - i,
    {
        match &steps[i].target {
            Some(x) => {
                let xc = to_chars(x.as_str());
                if chars_eq(xc.as_slice(), t) {
                    return true;
                }
            },
            None => {},
        }
        i = i + 1;
    }
    false
}

/// Records what was found at the chain's current path: a step at that path with what was
/// found and, for a readable link, its target made absolute. The chain goes on to the
/// target unless the target was already followed; it ends at anything that is not a
/// readable link.
pub fn chain_step(st: ChainState, probe: LinkProbe) -> (r: ChainState)
    requires
        chain_wf(st),
        !st.finished,
    ensures
        chain_wf(r),
        r.start@ == st.start@,
        r.steps@.len() == st.steps@.len() + 1,
        r.steps@.drop_last() == st.steps@,
        r.steps@.last().path@ == st.current@,
        r.steps@.last().is_symlink == probe.is_symlink,
        r.steps@.last().exists == probe.exists,
        step_target(r.steps@.last()) == probe_step_target(st.current@, probe),
        r.finished == match probe_step_target(st.current@, probe) {
            None => true,
            Some(t) => exists|i: int| 0 <= i < st.steps@.len() && step_target(#[trigger] st.steps@[i]) == Some(t),
        },
        !r.finished ==> r.current@ == probe_step_target(st.current@, probe)->0,
{
    let ChainState { start, steps, current, finished: _ } = st;
    let mut steps = steps;
    let ghost old_steps = steps@;
    let cur = to_chars(current.as_str());
    let target: Option<Vec<char>> = if probe.is_symlink {
        match &probe.target {
            Some(t) => {
                let tc = to_chars(t.as_str());
                Some(absolute_link_target(cur.as_slice(), tc.as_slice()))
            },
            None => None,
        }
    } else {
        None
    };
    match target {
        None => {
            steps.push(
                SymlinkStep { path: current, is_symlink: probe.is_symlink, exists: probe.exists, target: None },
            );
            let r = ChainState { start, steps, current: String::new(), finished: true };
            assert(r.steps@.drop_last() =~= old_steps);
            r
        },
        Some(t) => {
            let seen = target_seen(&steps, t.as_slice());
            let ts = from_chars(t.as_slice());
            let next = from_chars(t.as_slice());
            steps.push(
                SymlinkStep { path: current, is_symlink: probe.is_symlink, exists: probe.exists, target: Some(ts) },
            );
            let r = ChainState { start, steps, current: next, finished: seen };
            assert(r.steps@.drop_last() =~= old_steps);
            proof {
                let n = r.steps@.len();
                assert(r.steps@[n - 1].path@ == st.current@);
                if seen {
                    let i = choose|i: int| 0 <= i < old_steps.len() && step_target(#[trigger] old_steps[i]) == Some(t@);
                    assert(r.steps@[i] == old_steps[i]);
                }
                assert forall|i: int, j: int|
                    0 <= i < j < followed(r) implies step_target(#[trigger] r.steps@[i]) != step_target(
                    #[trigger] r.steps@[j],
                ) by {
                    if j == n - 1 {
                        assert(r.steps@[i] == old_steps[i]);
                    } else {
                        assert(r.steps@[i] == old_steps[i]);
                        assert(r.steps@[j] == old_steps[j]);
                    }
                }
                assert forall|i: int| 0 < i < n implies #[trigger] r.steps@[i].path@ == step_target(
                    r.steps@[i - 1],
                )->0 by {
                    if i < n - 1 {
                        assert(r.steps@[i] == old_steps[i]);
                        assert(r.steps@[i - 1] == old_steps[i - 1]);
                    } else {
                        assert(r.steps@[i - 1] == old_steps[i - 1]);
                    }
                }
                assert forall|i: int| 0 <= i < followed(r) implies #[trigger] step_target(r.steps@[i]) is Some by {
                    if i < n - 1 {
                        assert(r.steps@[i] == old_steps[i]);
                    }
                }
            }
            r
        },
    }
}

/// The steps of a finished chain.
pub fn chain_steps(st: ChainState) -> (r: Vec<SymlinkStep>)
    ensures
        r@ == st.steps@,
{
    st.steps
}

/// What is found at `path`: `path` itself unless it is a link that could be read, whose
/// target is then taken from the directory holding `path`.
pub open spec fn resolved_path(path: Seq<char>, link_target: Option<Seq<char>>) -> Seq<char> {
    match link_target {
        Some(t) => absolute_target(path, t),
        None => path,
    }
}

/// What is found at `path`, given the target of the link there, if it is a readable link.
pub fn resolve_path(path: &str, link_target: &Option<String>) -> (r: String)
    ensures
        r@ == resolved_path(path@, opt_str(*link_target)),
{
    match link_target {
        Some(t) => {
            let pc = to_chars(path);
            let tc = to_chars(t.as_str());
            let a = absolute_link_target(pc.as_slice(), tc.as_slice());
            from_chars(a.as_slice())
        },
        None => string_of(path),
    }
}

} // verus!

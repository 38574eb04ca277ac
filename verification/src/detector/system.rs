//! Operating system identity: kernel, architecture, release files, host name.
use vstd::prelude::*;
use crate::model::SystemContext;
use crate::strmap::StrMap;
use crate::text::{
    after_char, before_char, char_vecs, find_char, from_chars, has_char, lines, lines_of, sub_chars,
    trim, trim_char, trim_char_chars, trim_chars,
};

verus! {

/// What one line of `/etc/os-release` adds: comment lines and lines without `=` add
/// nothing; otherwise the text before the first `=` (trimmed) maps to the text after
/// it, trimmed and stripped of surrounding double and then single quotes.
pub open spec fn os_release_step(m: Map<Seq<char>, Seq<char>>, line: Seq<char>) -> Map<
    Seq<char>,
    Seq<char>,
> {
    if (line.len() > 0 && line[0] == '#') || !has_char(line, '=') {
        m
    } else {
        m.insert(
            trim(before_char(line, '=')),
            trim_char(trim_char(trim(after_char(line, '=')), '"'), '\''),
        )
    }
}

/// The pairs of an os-release file, a later line overriding an earlier one.
pub open spec fn os_release(content: Seq<char>) -> Map<Seq<char>, Seq<char>> {
    lines(content).fold_left(
        Map::empty(),
        |m: Map<Seq<char>, Seq<char>>, l: Seq<char>| os_release_step(m, l),
    )
}

/// What one line of `lsb_release -a` adds: lines without `:` add nothing; otherwise
/// the trimmed text before the first `:` maps to the trimmed text after it.
pub open spec fn lsb_release_step(m: Map<Seq<char>, Seq<char>>, line: Seq<char>) -> Map<
    Seq<char>,
    Seq<char>,
> {
    if !has_char(line, ':') {
        m
    } else {
        m.insert(trim(before_char(line, ':')), trim(after_char(line, ':')))
    }
}

/// The pairs of the output of `lsb_release -a`, a later line overriding an earlier one.
pub open spec fn lsb_release(output: Seq<char>) -> Map<Seq<char>, Seq<char>> {
    lines(output).fold_left(
        Map::empty(),
        |m: Map<Seq<char>, Seq<char>>, l: Seq<char>| lsb_release_step(m, l),
    )
}

/// Splits `line` at its first `sep`: the trimmed text before it and the text after it.
fn split_at_first(line: &[char], sep: char) -> (r: (Vec<char>, Vec<char>))
    requires
        has_char(line@, sep),
    ensures
        r.0@ == trim(before_char(line@, sep)),
        r.1@ == after_char(line@, sep),
{
    proof {
        crate::text::lemma_index_of_char_bounds(line@, sep);
    }
    let idx = find_char(line, sep);
    let n = line.len();
    assert(idx < n);
    let k = sub_chars(line, 0, idx);
    let v = sub_chars(line, idx + 1, n);
    assert(k@ == line@.take(idx as int));
    assert(v@ =~= line@.skip(idx + 1));
    (trim_chars(k.as_slice()), v)
}

/// The `KEY=value` pairs of the text of `/etc/os-release`.
pub fn parse_os_release(content: &str) -> (r: StrMap<String>)
    ensures
        r@ == os_release(content@),
{
    let ls = lines_of(content);
    let ghost all = char_vecs(ls@);
    let mut m: StrMap<String> = StrMap::new();
    proof {
        StrMap::<String>::lemma_view_empty(m);
    }
    let mut i: usize = 0;
    while i < ls.len()
        invariant
            i <= ls@.len(),
            all == char_vecs(ls@),
            all.len() == ls@.len(),
            m@ == all.take(i as int).fold_left(
                Map::empty(),
                |m: Map<Seq<char>, Seq<char>>, l: Seq<char>| os_release_step(m, l),
            ),
        decreases ls@.len() - i,
    {
        let line = ls[i].as_slice();
        assert(all[i as int] == line@);
        assert(all.take(i + 1).drop_last() =~= all.take(i as int));
        let comment = line.len() > 0 && line[0] == '#';
        if !comment && find_char(line, '=') < line.len() {
            let (k, v) = split_at_first(line, '=');
            let t = trim_chars(v.as_slice());
            let t1 = trim_char_chars(t.as_slice(), '"');
            let t2 = trim_char_chars(t1.as_slice(), '\'');
            let ks = from_chars(k.as_slice());
            let vs = from_chars(t2.as_slice());
            let ghost before = m;
            let ghost kk = ks@;
            let ghost vv = vs@;
            m.insert(ks, vs);
            proof {
                StrMap::<String>::lemma_view_insert(before, m, kk, vv);
            }
        }
        i = i + 1;
    }
    assert(all.take(i as int) =~= all);
    m
}

/// The `Key: value` pairs of the output of `lsb_release -a`.
pub fn parse_lsb_release(output: &str) -> (r: StrMap<String>)
    ensures
        r@ == lsb_release(output@),
{
    let ls = lines_of(output);
    let ghost all = char_vecs(ls@);
    let mut m: StrMap<String> = StrMap::new();
    proof {
        StrMap::<String>::lemma_view_empty(m);
    }
    let mut i: usize = 0;
    while i < ls.len()
        invariant
            i <= ls@.len(),
            all == char_vecs(ls@),
            all.len() == ls@.len(),
            m@ == all.take(i as int).fold_left(
                Map::empty(),
                |m: Map<Seq<char>, Seq<char>>, l: Seq<char>| lsb_release_step(m, l),
            ),
        decreases ls@.len() - i,
    {
        let line = ls[i].as_slice();
        assert(all[i as int] == line@);
        assert(all.take(i + 1).drop_last() =~= all.take(i as int));
        if find_char(line, ':') < line.len() {
            let (k, v) = split_at_first(line, ':');
            let t = trim_chars(v.as_slice());
            let ks = from_chars(k.as_slice());
            let vs = from_chars(t.as_slice());
            let ghost before = m;
            let ghost kk = ks@;
            let ghost vv = vs@;
            m.insert(ks, vs);
            proof {
                StrMap::<String>::lemma_view_insert(before, m, kk, vv);
            }
        }
        i = i + 1;
    }
    assert(all.take(i as int) =~= all);
    m
}

/// The system section, from the outputs of `uname -a`, `uname -m`,
/// `dpkg --print-architecture`, `hostname` and `lsb_release -a` and the text of
/// `/etc/os-release`.
pub fn collect(
    uname_full: String,
    uname_machine: String,
    dpkg_architecture: String,
    hostname: String,
    os_release_content: &str,
    lsb_release_output: &str,
) -> (r: SystemContext)
    ensures
        r.uname_full@ == uname_full@,
        r.uname_machine@ == uname_machine@,
        r.dpkg_architecture@ == dpkg_architecture@,
        r.hostname@ == hostname@,
        r.os_release@ == os_release(os_release_content@),
        r.lsb_release@ == lsb_release(lsb_release_output@),
{
    SystemContext {
        uname_full,
        uname_machine,
        dpkg_architecture,
        os_release: parse_os_release(os_release_content),
        lsb_release: parse_lsb_release(lsb_release_output),
        hostname,
    }
}

} // verus!

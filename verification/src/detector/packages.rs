//! The Debian packages that make up Plymouth, as dpkg and apt report them.
use vstd::prelude::*;
use crate::model::{PackageEntry, PackageEntryView, Packages};
use crate::strmap::StrMap;
use crate::text::{
    after_char, before_char, char_vecs, find_char, from_chars, has_char, join, join_chars, lines,
    lines_of, starts_with, starts_with_str, strings_of, strs, string_of, split_words, sub_chars,
    trim, trim_chars, words,
};

verus! {

/// The packages whose state is always asked of `dpkg-query`, in order.
pub open spec fn key_package_names() -> Seq<Seq<char>> {
    seq!["plymouth"@, "plymouth-themes"@, "plymouth-label"@, "python3-plymouth"@]
}

/// The packages whose state is always asked of `dpkg-query`, in order.
pub fn key_packages() -> (r: Vec<String>)
    ensures
        strs(r@) == key_package_names(),
{
    let mut r: Vec<String> = Vec::new();
    r.push(string_of("plymouth"));
    r.push(string_of("plymouth-themes"));
    r.push(string_of("plymouth-label"));
    r.push(string_of("python3-plymouth"));
    assert(strs(r@) =~= key_package_names());
    r
}

/// What `dpkg-query` answered for one package: the exit code and (trimmed) output of
/// `dpkg-query -W -f=${Version}`, and the (trimmed) output of `dpkg-query -W -f=${Status}`.
pub struct PackageQuery {
    pub version_rc: i32,
    pub version: String,
    pub status: String,
}

/// The entry of a queried package: its version when the query succeeded with some
/// output, its status (`not-installed` when dpkg printed none), no description.
pub open spec fn queried_entry(q: PackageQuery) -> PackageEntryView {
    PackageEntryView {
        version: if q.version_rc == 0 && q.version@.len() > 0 {
            Some(q.version@)
        } else {
            None
        },
        status: if q.status@.len() == 0 {
            "not-installed"@
        } else {
            q.status@
        },
        description: None,
    }
}

/// The entry of a queried package.
pub fn package_entry(q: &PackageQuery) -> (r: PackageEntry)
    ensures
        r@ == queried_entry(*q),
{
    let version = if q.version_rc == 0 && q.version.as_str().unicode_len() > 0 {
        Some(string_of(q.version.as_str()))
    } else {
        None
    };
    let status = if q.status.as_str().unicode_len() == 0 {
        string_of("not-installed")
    } else {
        string_of(q.status.as_str())
    };
    PackageEntry { version, status, description: None }
}

/// A line of `dpkg -l` that lists an installed package: it starts with `ii` or `iF` and
/// has at least three words.
pub open spec fn is_listed_line(line: Seq<char>) -> bool {
    (starts_with(line, "ii"@) || starts_with(line, "iF"@)) && words(line).len() >= 3
}

/// The entry of a package listed by `dpkg -l` with words `w`: the third word is the
/// version, and the words from the fifth on, joined by spaces, the description.
pub open spec fn listed_entry(w: Seq<Seq<char>>) -> PackageEntryView {
    PackageEntryView {
        version: Some(w[2]),
        status: "install ok installed"@,
        description: if w.len() > 4 {
            Some(join(w.skip(4), " "@))
        } else {
            None
        },
    }
}

/// What one line of `dpkg -l` adds: a listed package (named by its second word up to
/// the first `:`) that is not known yet.
pub open spec fn dpkg_list_step(m: Map<Seq<char>, PackageEntryView>, line: Seq<char>) -> Map<
    Seq<char>,
    PackageEntryView,
> {
    if is_listed_line(line) {
        let w = words(line);
        let name = before_char(w[1], ':');
        if m.contains_key(name) {
            m
        } else {
            m.insert(name, listed_entry(w))
        }
    } else {
        m
    }
}

/// `m` with the packages listed by `dpkg -l` (output `out`) that it does not know yet.
pub open spec fn with_listed(m: Map<Seq<char>, PackageEntryView>, out: Seq<char>) -> Map<
    Seq<char>,
    PackageEntryView,
> {
    listed_after(m, lines(out))
}

/// `m` after reading the lines `ls` of `dpkg -l`.
pub open spec fn listed_after(m: Map<Seq<char>, PackageEntryView>, ls: Seq<Seq<char>>) -> Map<
    Seq<char>,
    PackageEntryView,
> {
    ls.fold_left(m, |m: Map<Seq<char>, PackageEntryView>, l: Seq<char>| dpkg_list_step(m, l))
}

/// Adds to `map` the packages listed in `out`, the output of `dpkg -l '*plymouth*'`,
/// that it does not hold yet.
pub fn add_listed_packages(map: &mut StrMap<PackageEntry>, out: &str)
    ensures
        final(map)@ == with_listed(old(map)@, out@),
{
    let ls = lines_of(out);
    let ghost all = char_vecs(ls@);
    let ghost start = map@;
    let mut i: usize = 0;
    while i < ls.len()
        invariant
            i <= ls@.len(),
            all == char_vecs(ls@),
            all.len() == ls@.len(),
            map@ == listed_after(start, all.take(i as int)),
        decreases ls@.len() - i,
    {
        let line = ls[i].as_slice();
        assert(all[i as int] == line@);
        assert(all.take(i + 1).drop_last() =~= all.take(i as int));
        if starts_with_str(line, "ii") || starts_with_str(line, "iF") {
            let mut w = split_words(line);
            if w.len() >= 3 {
                let first = w[1].as_slice();
                let idx = find_char(first, ':');
                proof {
                    crate::text::lemma_index_of_char_bounds(first@, ':');
                }
                let name = sub_chars(first, 0, idx);
                assert(name@ == before_char(first@, ':'));
                proof {
                    map.lemma_view();
                }
                if map.get_chars(name.as_slice()).is_none() {
                    let version = from_chars(w[2].as_slice());
                    let description = if w.len() > 4 {
                        let rest = w.split_off(4);
                        assert(char_vecs(rest@) =~= words(line@).skip(4));
                        let sep = crate::text::to_chars(" ");
                        let d = join_chars(rest.as_slice(), sep.as_slice());
                        Some(from_chars(d.as_slice()))
                    } else {
                        None
                    };
                    let entry = PackageEntry {
                        version: Some(version),
                        status: string_of("install ok installed"),
                        description,
                    };
                    let ks = from_chars(name.as_slice());
                    let ghost before = *map;
                    let ghost kk = ks@;
                    let ghost ev = entry@;
                    assert(ev == listed_entry(words(line@)));
                    map.insert(ks, entry);
                    proof {
                        StrMap::<PackageEntry>::lemma_view_insert(before, *map, kk, ev);
                    }
                }
            }
        }
        i = i + 1;
    }
    assert(all.take(i as int) =~= all);
}

/// The entries of the four key packages (see [`key_package_names`]), from their queries.
pub open spec fn queried_map(
    plymouth: PackageQuery,
    themes: PackageQuery,
    label: PackageQuery,
    python: PackageQuery,
) -> Map<Seq<char>, PackageEntryView> {
    Map::empty().insert("plymouth"@, queried_entry(plymouth)).insert(
        "plymouth-themes"@,
        queried_entry(themes),
    ).insert("plymouth-label"@, queried_entry(label)).insert(
        "python3-plymouth"@,
        queried_entry(python),
    )
}

/// The fields kept of `apt-cache show`, in the order in which each line is tested.
pub open spec fn apt_show_fields() -> Seq<Seq<char>> {
    seq![
        "Package"@,
        "Version"@,
        "Section"@,
        "Origin"@,
        "Maintainer"@,
        "Installed-Size"@,
    ]
}

/// What testing `line` against field `f` adds: when the line starts with `f` and holds
/// a `:`, `f` maps to the trimmed text after the first `:`.
pub open spec fn apt_show_field_step(
    m: Map<Seq<char>, Seq<char>>,
    line: Seq<char>,
    f: Seq<char>,
) -> Map<Seq<char>, Seq<char>> {
    if starts_with(line, f) && has_char(line, ':') {
        m.insert(f, trim(after_char(line, ':')))
    } else {
        m
    }
}

/// `m` after testing `line` against each of `fields` in turn.
pub open spec fn apt_show_line(
    m: Map<Seq<char>, Seq<char>>,
    line: Seq<char>,
    fields: Seq<Seq<char>>,
) -> Map<Seq<char>, Seq<char>>
    decreases fields.len(),
{
    if fields.len() == 0 {
        m
    } else {
        apt_show_field_step(apt_show_line(m, line, fields.drop_last()), line, line_field(fields))
    }
}

/// The last of `fields`.
pub open spec fn line_field(fields: Seq<Seq<char>>) -> Seq<char> {
    fields.last()
}

/// The fields kept of the output of `apt-cache show`, a later line overriding an
/// earlier one.
pub open spec fn apt_show(content: Seq<char>) -> Map<Seq<char>, Seq<char>> {
    apt_show_after(lines(content))
}

/// The fields kept after reading the lines `ls` of `apt-cache show`.
pub open spec fn apt_show_after(ls: Seq<Seq<char>>) -> Map<Seq<char>, Seq<char>> {
    ls.fold_left(
        Map::empty(),
        |m: Map<Seq<char>, Seq<char>>, l: Seq<char>| apt_show_line(m, l, apt_show_fields()),
    )
}

/// The fields kept of `apt-cache show` (see [`apt_show_fields`]), as exec strings.
fn apt_show_field_names() -> (r: Vec<String>)
    ensures
        strs(r@) == apt_show_fields(),
{
    let mut r: Vec<String> = Vec::new();
    r.push(string_of("Package"));
    r.push(string_of("Version"));
    r.push(string_of("Section"));
    r.push(string_of("Origin"));
    r.push(string_of("Maintainer"));
    r.push(string_of("Installed-Size"));
    assert(strs(r@) =~= apt_show_fields());
    r
}

/// The fields `Package`, `Version`, `Section`, `Origin`, `Maintainer` and
/// `Installed-Size` of the output of `apt-cache show`.
pub fn parse_apt_cache_show(content: &str) -> (r: StrMap<String>)
    ensures
        r@ == apt_show(content@),
{
    let fields = apt_show_field_names();
    let ls = lines_of(content);
    let ghost all = char_vecs(ls@);
    let mut m: StrMap<String> = StrMap::new();
    proof {
        StrMap::<String>::lemma_view_empty(m);
    }
    let mut i: usize = 0;
    while i < ls.len()
        invariant
            i <= ls@.len(),
            all == char_vecs(ls@),
            all.len() == ls@.len(),
            strs(fields@) == apt_show_fields(),
            m@ == apt_show_after(all.take(i as int)),
        decreases ls@.len() - i,
    {
        let line = ls[i].as_slice();
        assert(all[i as int] == line@);
        assert(all.take(i + 1).drop_last() =~= all.take(i as int));
        let ghost at_start = m@;
        let idx = find_char(line, ':');
        proof {
            crate::text::lemma_index_of_char_bounds(line@, ':');
        }
        let mut j: usize = 0;
        while j < fields.len()
            invariant
                j <= fields@.len(),
                strs(fields@) == apt_show_fields(),
                idx == crate::text::index_of_char(line@, ':'),
                0 <= idx <= line@.len(),
                m@ == apt_show_line(at_start, line@, strs(fields@).take(j as int)),
            decreases fields@.len() - j,
        {
            let f = fields[j].as_str();
            assert(strs(fields@).take(j + 1).drop_last() =~= strs(fields@).take(j as int));
            assert(line_field(strs(fields@).take(j + 1)) == f@);
            let fc = crate::text::to_chars(f);
            if crate::text::has_prefix(line, fc.as_slice()) && idx < line.len() {
                let v = sub_chars(line, idx + 1, line.len());
                assert(v@ =~= after_char(line@, ':'));
                let t = trim_chars(v.as_slice());
                let ks = string_of(f);
                let vs = from_chars(t.as_slice());
                let ghost before = m;
                let ghost kk = ks@;
                let ghost vv = vs@;
                m.insert(ks, vs);
                proof {
                    StrMap::<String>::lemma_view_insert(before, m, kk, vv);
                }
            }
            j = j + 1;
        }
        assert(strs(fields@).take(j as int) =~= apt_show_fields());
        i = i + 1;
    }
    assert(all.take(i as int) =~= all);
    m
}

/// Stores under `name` the entry of a queried package.
fn insert_queried(map: &mut StrMap<PackageEntry>, name: &str, q: &PackageQuery)
    ensures
        final(map)@ == old(map)@.insert(name@, queried_entry(*q)),
{
    let entry = package_entry(q);
    let ks = string_of(name);
    let ghost before = *map;
    let ghost kk = ks@;
    let ghost ev = entry@;
    map.insert(ks, entry);
    proof {
        StrMap::<PackageEntry>::lemma_view_insert(before, *map, kk, ev);
    }
}

/// The packages section: the four key packages as `dpkg-query` reported them (see
/// [`key_package_names`]), the other packages listed by `dpkg -l '*plymouth*'`
/// (`dpkg_list`), the lines of `dpkg -L plymouth` (`file_list`), the output of
/// `apt-cache policy plymouth` and the fields kept of `apt-cache show plymouth`.
pub fn collect(
    plymouth: PackageQuery,
    themes: PackageQuery,
    label: PackageQuery,
    python: PackageQuery,
    dpkg_list: &str,
    file_list: &str,
    apt_cache_policy: String,
    apt_cache_show: &str,
) -> (r: Packages)
    ensures
        r.packages@ == with_listed(queried_map(plymouth, themes, label, python), dpkg_list@),
        strs(r._plymouth_file_list@) == lines(file_list@),
        r._apt_cache_policy@ == apt_cache_policy@,
        r._apt_cache_show@ == apt_show(apt_cache_show@),
{
    let mut map: StrMap<PackageEntry> = StrMap::new();
    proof {
        StrMap::<PackageEntry>::lemma_view_empty(map);
    }
    insert_queried(&mut map, "plymouth", &plymouth);
    insert_queried(&mut map, "plymouth-themes", &themes);
    insert_queried(&mut map, "plymouth-label", &label);
    insert_queried(&mut map, "python3-plymouth", &python);
    add_listed_packages(&mut map, dpkg_list);
    let fl = lines_of(file_list);
    Packages {
        packages: map,
        _plymouth_file_list: strings_of(&fl),
        _apt_cache_policy: apt_cache_policy,
        _apt_cache_show: parse_apt_cache_show(apt_cache_show),
    }
}

/// Reading lines of `dpkg -l` never takes away or changes a package already known.
proof fn lemma_listed_lines_keep(m: Map<Seq<char>, PackageEntryView>, ls: Seq<Seq<char>>)
    ensures
        forall|k: Seq<char>|
            m.contains_key(k) ==> #[trigger] listed_after(m, ls).contains_key(k) && listed_after(m, ls)[k]
                == m[k],
    decreases ls.len(),
{
    if ls.len() > 0 {
        lemma_listed_lines_keep(m, ls.drop_last());
        let before = listed_after(m, ls.drop_last());
        assert(listed_after(m, ls) == dpkg_list_step(before, ls.last()));
        assert forall|k: Seq<char>| m.contains_key(k) implies #[trigger] listed_after(m, ls).contains_key(k)
            && listed_after(m, ls)[k] == m[k] by {
            assert(before.contains_key(k));
        }
    }
}

/// The packages listed by `dpkg -l` are only added: every package already known (the
/// four queried ones among them) keeps its entry.
pub proof fn lemma_listing_keeps_known(m: Map<Seq<char>, PackageEntryView>, out: Seq<char>)
    ensures
        forall|k: Seq<char>|
            m.contains_key(k) ==> #[trigger] with_listed(m, out).contains_key(k) && with_listed(m, out)[k]
                == m[k],
{
    lemma_listed_lines_keep(m, lines(out));
}

/// Testing a line against some fields only stores under those fields.
proof fn lemma_apt_show_line_keys(m: Map<Seq<char>, Seq<char>>, line: Seq<char>, fields: Seq<Seq<char>>)
    ensures
        forall|k: Seq<char>|
            #[trigger] apt_show_line(m, line, fields).contains_key(k) ==> m.contains_key(k) || fields.contains(k),
    decreases fields.len(),
{
    if fields.len() > 0 {
        let p = fields.drop_last();
        lemma_apt_show_line_keys(m, line, p);
        assert forall|k: Seq<char>| #[trigger] apt_show_line(m, line, fields).contains_key(k) implies m.contains_key(k)
            || fields.contains(k) by {
            if apt_show_line(m, line, p).contains_key(k) && !m.contains_key(k) {
                let i = choose|i: int| 0 <= i < p.len() && p[i] == k;
                assert(fields[i] == k);
            }
            if k == line_field(fields) {
                assert(fields[fields.len() - 1] == k);
            }
        }
    }
}

proof fn lemma_apt_show_lines_keys(ls: Seq<Seq<char>>)
    ensures
        forall|k: Seq<char>|
            #[trigger] apt_show_after(ls).contains_key(k) ==> apt_show_fields().contains(k),
    decreases ls.len(),
{
    if ls.len() > 0 {
        lemma_apt_show_lines_keys(ls.drop_last());
        lemma_apt_show_line_keys(apt_show_after(ls.drop_last()), ls.last(), apt_show_fields());
        assert(apt_show_after(ls) == apt_show_line(apt_show_after(ls.drop_last()), ls.last(), apt_show_fields()));
    }
}

/// The fields kept of `apt-cache show` are among the six looked for.
pub proof fn lemma_apt_show_fields(content: Seq<char>)
    ensures
        forall|k: Seq<char>| #[trigger] apt_show(content).contains_key(k) ==> apt_show_fields().contains(k),
{
    lemma_apt_show_lines_keys(lines(content));
}

} // verus!

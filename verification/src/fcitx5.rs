//! Fcitx5 classic-UI themes: the built-in theme set, the `Theme=` setting of
//! `classicui.conf`, and the steps that install, select and reload a theme.
use crate::platform::Platform;
use crate::text::{
    chars_eq, chars_of, is_first_pos, str_eq, join_lines, lemma_join_nonempty, lemma_join_push_newline,
    lemma_lines_no_newline, lemma_lines_of_terminated, lemma_split_once_at, lemma_split_once_none,
    lemma_trim_push_ws, lines, lines_of, no_newline, split_once, split_once_chars, string_of,
    strip_cr, trim, trim_chars, views,
};
use vstd::prelude::*;

verus! {

broadcast use vstd::string::group_string_axioms;

// ---------------------------------------------------------------------------
// `key=value` configuration lines
// ---------------------------------------------------------------------------

/// The line is a `key=value` line whose trimmed key is `key`.
pub open spec fn line_has_key(line: Seq<char>, key: Seq<char>) -> bool {
    match split_once(line, '=') {
        Some((k, _)) => trim(k) == key,
        None => false,
    }
}

/// The trimmed, nonempty value that the line gives `key`.
pub open spec fn line_value(line: Seq<char>, key: Seq<char>) -> Option<Seq<char>> {
    match split_once(line, '=') {
        Some((k, v)) => if trim(k) == key && trim(v).len() > 0 {
            Some(trim(v))
        } else {
            None
        },
        None => None,
    }
}

/// The value of the first line that gives `key` a nonempty value.
pub open spec fn first_value(ls: Seq<Seq<char>>, key: Seq<char>) -> Option<Seq<char>>
    decreases ls.len(),
{
    if ls.len() == 0 {
        None
    } else {
        match line_value(ls[0], key) {
            Some(v) => Some(v),
            None => first_value(ls.drop_first(), key),
        }
    }
}

/// What `read_theme_key` finds in a configuration text.
pub open spec fn spec_read_key(content: Seq<char>, key: Seq<char>) -> Option<Seq<char>> {
    first_value(lines(content), key)
}

/// The line `key=value`.
pub open spec fn kv_line(key: Seq<char>, value: Seq<char>) -> Seq<char> {
    key + seq!['='] + value
}

/// A line after the upsert: a line with the key becomes `key=value`.
pub open spec fn upsert_line(l: Seq<char>, key: Seq<char>, value: Seq<char>) -> Seq<char> {
    if line_has_key(l, key) {
        kv_line(key, value)
    } else {
        l
    }
}

/// Some line of `ls` has the key.
pub open spec fn any_has_key(ls: Seq<Seq<char>>, key: Seq<char>) -> bool {
    exists|i: int| 0 <= i < ls.len() && line_has_key(#[trigger] ls[i], key)
}

/// The lines after the upsert: every line with the key replaced, or
/// `key=value` appended when no line has it.
pub open spec fn upsert_lines(ls: Seq<Seq<char>>, key: Seq<char>, value: Seq<char>) -> Seq<
    Seq<char>,
> {
    let m = ls.map_values(|l: Seq<char>| upsert_line(l, key, value));
    if any_has_key(ls, key) {
        m
    } else {
        m.push(kv_line(key, value))
    }
}

/// What `upsert_key_value` returns: the upserted lines joined by `\n`, with
/// a final `\n` when the text is not empty.
pub open spec fn spec_upsert(content: Seq<char>, key: Seq<char>, value: Seq<char>) -> Seq<char> {
    let j = join_lines(upsert_lines(lines(content), key, value));
    if j.len() > 0 {
        j.push('\n')
    } else {
        j
    }
}

/// The value a well-formed `key=value` line gives back.
pub open spec fn expected_value(value: Seq<char>) -> Option<Seq<char>> {
    if trim(value).len() > 0 {
        Some(trim(value))
    } else {
        None
    }
}

/// Views of an optional string.
pub open spec fn opt_view(o: Option<String>) -> Option<Seq<char>> {
    match o {
        Some(s) => Some(s@),
        None => None,
    }
}

/// Whether the line has the key, and the value it gives.
fn classify_line(line: &Vec<char>, key: &Vec<char>) -> (r: (bool, Option<Vec<char>>))
    ensures
        r.0 == line_has_key(line@, key@),
        r.1 matches Some(v) ==> line_value(line@, key@) == Some(v@),
        r.1 is None ==> line_value(line@, key@) is None,
{
    match split_once_chars(line, '=') {
        Some((k, v)) => {
            let tk = trim_chars(&k);
            if chars_eq(&tk, key) {
                let tv = trim_chars(&v);
                if tv.len() > 0 {
                    (true, Some(tv))
                } else {
                    (true, None)
                }
            } else {
                (false, None)
            }
        },
        None => (false, None),
    }
}

/// The first nonempty value given to `key` in `content`.
pub fn read_key(content: &str, key: &str) -> (r: Option<String>)
    ensures
        opt_view(r) == spec_read_key(content@, key@),
{
    let cs = chars_of(content);
    let kc = chars_of(key);
    let ls = lines_of(&cs);
    let ghost all = views(ls@);
    let mut i: usize = 0;
    assert(all.skip(0) =~= all);
    while i < ls.len()
        invariant
            0 <= i <= ls.len(),
            all == views(ls@),
            all == lines(cs@),
            cs@ == content@,
            kc@ == key@,
            first_value(all, key@) == first_value(all.skip(i as int), key@),
        decreases ls.len() - i,
    {
        let (_, v) = classify_line(&ls[i], &kc);
        let ghost rest = all.skip(i as int);
        assert(rest[0] == ls@[i as int]@);
        assert(rest.drop_first() =~= all.skip(i + 1));
        match v {
            Some(v) => {
                return Some(string_of(&v));
            },
            None => {},
        }
        i = i + 1;
    }
    assert(all.skip(ls.len() as int) =~= Seq::<Seq<char>>::empty());
    None
}

/// The theme named by the `Theme=` line of a `classicui.conf` text: the
/// trimmed value of the first line whose trimmed key is `Theme` and whose
/// trimmed value is not empty.
pub fn read_theme_key(content: &str) -> (r: Option<String>)
    ensures
        opt_view(r) == spec_read_key(content@, "Theme"@),
{
    read_key(content, "Theme")
}

/// `key=value` as characters.
fn kv_chars(key: &Vec<char>, value: &Vec<char>) -> (r: Vec<char>)
    ensures
        r@ == kv_line(key@, value@),
{
    let mut out = key.clone();
    out.push('=');
    let mut i: usize = 0;
    while i < value.len()
        invariant
            0 <= i <= value.len(),
            out@ == key@ + seq!['='] + value@.take(i as int),
        decreases value.len() - i,
    {
        out.push(value[i]);
        assert(value@.take(i as int).push(value@[i as int]) =~= value@.take(i + 1));
        i = i + 1;
    }
    assert(value@.take(value.len() as int) =~= value@);
    out
}

/// Joining one more line.
pub proof fn lemma_join_push(ls: Seq<Seq<char>>, x: Seq<char>)
    ensures
        join_lines(ls.push(x)) == if ls.len() == 0 {
            x
        } else {
            join_lines(ls) + seq!['\n'] + x
        },
    decreases ls.len(),
{
    let t = ls.push(x);
    if ls.len() == 0 {
        assert(t.len() == 1);
    } else if ls.len() == 1 {
        assert(t.drop_first() =~= seq![x]);
        assert(join_lines(seq![x]) == x);
    } else {
        assert(t.drop_first() =~= ls.drop_first().push(x));
        lemma_join_push(ls.drop_first(), x);
        assert(join_lines(t) == t[0] + seq!['\n'] + join_lines(t.drop_first()));
        assert(ls[0] + seq!['\n'] + (join_lines(ls.drop_first()) + seq!['\n'] + x) =~= (ls[0]
            + seq!['\n'] + join_lines(ls.drop_first())) + seq!['\n'] + x);
    }
}

/// Lines joined by `\n`.
fn join_chars(ls: &Vec<Vec<char>>) -> (r: Vec<char>)
    ensures
        r@ == join_lines(views(ls@)),
{
    let mut out: Vec<char> = Vec::new();
    let mut i: usize = 0;
    assert(views(ls@).take(0) =~= Seq::<Seq<char>>::empty());
    while i < ls.len()
        invariant
            0 <= i <= ls.len(),
            out@ == join_lines(views(ls@).take(i as int)),
        decreases ls.len() - i,
    {
        let ghost before = views(ls@).take(i as int);
        proof {
            lemma_join_push(before, ls@[i as int]@);
            assert(before.push(ls@[i as int]@) =~= views(ls@).take(i + 1));
        }
        if i > 0 {
            out.push('\n');
        }
        let line = &ls[i];
        let mut j: usize = 0;
        let ghost base = out@;
        while j < line.len()
            invariant
                0 <= j <= line.len(),
                out@ == base + line@.take(j as int),
            decreases line.len() - j,
        {
            out.push(line[j]);
            assert(line@.take(j as int).push(line@[j as int]) =~= line@.take(j + 1));
            j = j + 1;
        }
        assert(line@.take(line.len() as int) =~= line@);
        if i == 0 {
            assert(out@ =~= ls@[0]@);
        }
        i = i + 1;
    }
    assert(views(ls@).take(ls.len() as int) =~= views(ls@));
    out
}

/// Sets `key=value` in a `key=value` configuration text: every line whose
/// trimmed key is `key` becomes `key=value`; when there is none, the line is
/// appended. Lines are joined by `\n`, with a final `\n` unless empty.
pub fn upsert_key_value(content: &str, key: &str, value: &str) -> (r: String)
    ensures
        r@ == spec_upsert(content@, key@, value@),
{
    let cs = chars_of(content);
    let kc = chars_of(key);
    let vc = chars_of(value);
    let kv = kv_chars(&kc, &vc);
    let ls = lines_of(&cs);
    let ghost all = views(ls@);
    let mut out: Vec<Vec<char>> = Vec::new();
    let mut found = false;
    let mut i: usize = 0;
    while i < ls.len()
        invariant
            0 <= i <= ls.len(),
            all == views(ls@),
            kc@ == key@,
            kv@ == kv_line(key@, value@),
            views(out@) == all.take(i as int).map_values(
                |l: Seq<char>| upsert_line(l, key@, value@),
            ),
            found == any_has_key(all.take(i as int), key@),
        decreases ls.len() - i,
    {
        let (has, _) = classify_line(&ls[i], &kc);
        let ghost old_out = views(out@);
        let ghost prev = all.take(i as int);
        let ghost next = all.take(i + 1);
        assert(next =~= prev.push(all[i as int]));
        if has {
            let c = kv.clone();
            assert(c@ =~= kv@);
            out.push(c);
            found = true;
            assert(line_has_key(next[i as int], key@));
        } else {
            let c = ls[i].clone();
            assert(c@ =~= ls@[i as int]@);
            out.push(c);
            proof {
                if any_has_key(next, key@) {
                    let w = choose|w: int|
                        0 <= w < next.len() && line_has_key(#[trigger] next[w], key@);
                    assert(line_has_key(prev[w], key@));
                }
            }
        }
        assert(views(out@) =~= old_out.push(upsert_line(all[i as int], key@, value@)));
        assert(views(out@) =~= next.map_values(|l: Seq<char>| upsert_line(l, key@, value@)));
        i = i + 1;
    }
    assert(all.take(ls.len() as int) =~= all);
    if !found {
        let ghost old_out = views(out@);
        out.push(kv);
        assert(views(out@) =~= old_out.push(kv_line(key@, value@)));
    }
    let mut joined = join_chars(&out);
    if joined.len() > 0 {
        joined.push('\n');
    }
    string_of(&joined)
}

// ---------------------------------------------------------------------------
// Read after write
// ---------------------------------------------------------------------------

/// Dropping a trailing carriage return does not change what a line gives.
pub proof fn lemma_line_value_strip_cr(l: Seq<char>, key: Seq<char>)
    ensures
        line_value(strip_cr(l), key) == line_value(l, key),
        line_has_key(strip_cr(l), key) == line_has_key(l, key),
{
    if l.len() > 0 && l.last() == '\r' {
        let s = l.drop_last();
        if exists|i: int| is_first_pos(l, '=', i) {
            let i = choose|i: int| is_first_pos(l, '=', i);
            assert(i < s.len());
            assert(is_first_pos(s, '=', i));
            lemma_split_once_at(l, '=', i);
            lemma_split_once_at(s, '=', i);
            assert(s.take(i) =~= l.take(i));
            assert(l.skip(i + 1) =~= s.skip(i + 1).push('\r'));
            lemma_trim_push_ws(s.skip(i + 1), '\r');
        } else {
            assert forall|j: int| 0 <= j < s.len() implies s[j] != '=' by {
                if s[j] == '=' {
                    assert(l[j] == '=');
                    lemma_exists_first_pos(l, '=', j);
                }
            }
            lemma_split_once_none(s, '=');
        }
    }
}

/// A position of `c` gives a first position of `c`.
pub proof fn lemma_exists_first_pos(s: Seq<char>, c: char, j: int)
    requires
        0 <= j < s.len(),
        s[j] == c,
    ensures
        exists|i: int| is_first_pos(s, c, i),
    decreases j,
{
    if forall|k: int| 0 <= k < j ==> s[k] != c {
        assert(is_first_pos(s, c, j));
    } else {
        let k = choose|k: int| 0 <= k < j && s[k] == c;
        lemma_exists_first_pos(s, c, k);
    }
}

/// Reading through lines that lost a trailing carriage return.
pub proof fn lemma_first_value_strip_cr(ls: Seq<Seq<char>>, key: Seq<char>)
    ensures
        first_value(ls.map_values(|l: Seq<char>| strip_cr(l)), key) == first_value(ls, key),
    decreases ls.len(),
{
    let m = ls.map_values(|l: Seq<char>| strip_cr(l));
    if ls.len() > 0 {
        lemma_line_value_strip_cr(ls[0], key);
        assert(m.drop_first() =~= ls.drop_first().map_values(|l: Seq<char>| strip_cr(l)));
        lemma_first_value_strip_cr(ls.drop_first(), key);
    }
}

/// The line `key=value` has the key and gives the trimmed value.
pub proof fn lemma_kv_line(key: Seq<char>, value: Seq<char>)
    requires
        forall|j: int| 0 <= j < key.len() ==> key[j] != '=',
        trim(key) == key,
    ensures
        line_has_key(kv_line(key, value), key),
        line_value(kv_line(key, value), key) == expected_value(value),
{
    let l = kv_line(key, value);
    assert(is_first_pos(l, '=', key.len() as int));
    lemma_split_once_at(l, '=', key.len() as int);
    assert(l.take(key.len() as int) =~= key);
    assert(l.skip(key.len() as int + 1) =~= value);
}

/// A line without the key gives nothing for it.
pub proof fn lemma_no_key_no_value(l: Seq<char>, key: Seq<char>)
    requires
        !line_has_key(l, key),
    ensures
        line_value(l, key) is None,
{
}

/// Reading the key from lines after the replacement.
pub proof fn lemma_first_value_mapped(ls: Seq<Seq<char>>, key: Seq<char>, value: Seq<char>)
    requires
        forall|j: int| 0 <= j < key.len() ==> key[j] != '=',
        trim(key) == key,
    ensures
        first_value(ls.map_values(|l: Seq<char>| upsert_line(l, key, value)), key) == if any_has_key(
            ls,
            key,
        ) {
            expected_value(value)
        } else {
            None
        },
        !any_has_key(ls, key) ==> ls.map_values(|l: Seq<char>| upsert_line(l, key, value)) == ls,
    decreases ls.len(),
{
    let m = ls.map_values(|l: Seq<char>| upsert_line(l, key, value));
    if ls.len() == 0 {
        assert(m =~= ls);
    } else {
        let rest = ls.drop_first();
        assert(m.drop_first() =~= rest.map_values(|l: Seq<char>| upsert_line(l, key, value)));
        lemma_first_value_mapped(rest, key, value);
        lemma_kv_line(key, value);
        if line_has_key(ls[0], key) {
            assert(any_has_key(ls, key));
            assert(m[0] == kv_line(key, value));
            if any_has_key(rest, key) {
            }
        } else {
            lemma_no_key_no_value(ls[0], key);
            assert(m[0] == ls[0]);
            if any_has_key(ls, key) {
                let w = choose|w: int| 0 <= w < ls.len() && line_has_key(#[trigger] ls[w], key);
                assert(w > 0);
                assert(line_has_key(rest[w - 1], key));
            }
            if any_has_key(rest, key) {
                let w = choose|w: int| 0 <= w < rest.len() && line_has_key(#[trigger] rest[w], key);
                assert(line_has_key(ls[w + 1], key));
            }
            if !any_has_key(ls, key) {
                assert(!any_has_key(rest, key)) by {
                    if any_has_key(rest, key) {
                        let w = choose|w: int|
                            0 <= w < rest.len() && line_has_key(#[trigger] rest[w], key);
                        assert(line_has_key(ls[w + 1], key));
                    }
                }
                assert(m =~= seq![ls[0]].add(rest));
            }
        }
    }
}

/// Reading lines that end in one more line.
pub proof fn lemma_first_value_push(ls: Seq<Seq<char>>, x: Seq<char>, key: Seq<char>)
    requires
        first_value(ls, key) is None,
    ensures
        first_value(ls.push(x), key) == line_value(x, key),
    decreases ls.len(),
{
    let t = ls.push(x);
    if ls.len() == 0 {
        assert(t.drop_first() =~= Seq::<Seq<char>>::empty());
        assert(first_value(t.drop_first(), key) is None);
        assert(t[0] == x);
    } else {
        assert(t[0] == ls[0]);
        assert(line_value(ls[0], key) is None);
        assert(t.drop_first() =~= ls.drop_first().push(x));
        lemma_first_value_push(ls.drop_first(), x, key);
    }
}

/// Read after write: reading `key` back from a text after
/// `upsert_key_value(content, key, value)` gives the trimmed `value`, or
/// nothing when `value` is only whitespace. It holds for a key without `=`
/// and without surrounding whitespace, and a key and value without newlines.
pub proof fn law_read_after_upsert(content: Seq<char>, key: Seq<char>, value: Seq<char>)
    requires
        forall|j: int| 0 <= j < key.len() ==> key[j] != '=',
        trim(key) == key,
        no_newline(key),
        no_newline(value),
    ensures
        spec_read_key(spec_upsert(content, key, value), key) == expected_value(value),
{
    let ls = lines(content);
    let u = upsert_lines(ls, key, value);
    let m = ls.map_values(|l: Seq<char>| upsert_line(l, key, value));
    lemma_lines_no_newline(content);
    lemma_kv_line(key, value);
    let kv = kv_line(key, value);
    assert(no_newline(kv));
    assert(kv.len() > 0);
    assert forall|k: int| 0 <= k < u.len() implies no_newline(#[trigger] u[k]) by {
        if k < ls.len() {
            assert(m[k] == upsert_line(ls[k], key, value));
        }
    }
    // The replaced or appended `key=value` line makes the text nonempty.
    if any_has_key(ls, key) {
        let w = choose|w: int| 0 <= w < ls.len() && line_has_key(#[trigger] ls[w], key);
        assert(u[w] == kv);
        lemma_join_nonempty(u, w);
    } else {
        assert(u[u.len() - 1] == kv);
        lemma_join_nonempty(u, u.len() - 1);
    }
    lemma_join_push_newline(u);
    lemma_lines_of_terminated(u);
    lemma_first_value_strip_cr(u, key);
    lemma_first_value_mapped(ls, key, value);
    if !any_has_key(ls, key) {
        lemma_first_value_push(m, kv, key);
    }
}

// ---------------------------------------------------------------------------
// Built-in themes
// ---------------------------------------------------------------------------

/// The themes shipped with the program, in name order.
pub open spec fn spec_builtin_theme_names() -> Seq<Seq<char>> {
    seq!["OriDark"@, "OriLight"@]
}

/// Views of a vector of strings.
pub open spec fn string_views(v: Seq<String>) -> Seq<Seq<char>> {
    v.map_values(|s: String| s@)
}

/// The names of the themes shipped with the program, in name order.
pub fn builtin_theme_names() -> (r: Vec<String>)
    ensures
        string_views(r@) == spec_builtin_theme_names(),
{
    let mut v: Vec<String> = Vec::new();
    v.push("OriDark".to_string());
    v.push("OriLight".to_string());
    assert(string_views(v@) =~= spec_builtin_theme_names());
    v
}

/// The built-in themes as (key, label) pairs; a theme's label is its name.
pub fn builtin_theme_choices() -> (r: Vec<(String, String)>)
    ensures
        r.len() == spec_builtin_theme_names().len(),
        forall|i: int|
            0 <= i < r.len() ==> (#[trigger] r@[i]).0@ == spec_builtin_theme_names()[i] && r@[i].1@
                == spec_builtin_theme_names()[i],
{
    let names = builtin_theme_names();
    let mut out: Vec<(String, String)> = Vec::new();
    let mut i: usize = 0;
    while i < names.len()
        invariant
            0 <= i <= names.len(),
            string_views(names@) == spec_builtin_theme_names(),
            out.len() == i,
            forall|j: int|
                0 <= j < i ==> (#[trigger] out@[j]).0@ == spec_builtin_theme_names()[j]
                    && out@[j].1@ == spec_builtin_theme_names()[j],
        decreases names.len() - i,
    {
        assert(names@[i as int]@ == spec_builtin_theme_names()[i as int]);
        let a = names[i].clone();
        let b = names[i].clone();
        out.push((a, b));
        i = i + 1;
    }
    out
}

/// Whether any theme is shipped with the program.
pub fn builtin_themes_available() -> (r: bool)
    ensures
        r == (spec_builtin_theme_names().len() > 0),
{
    builtin_theme_names().len() > 0
}

/// Some file of the table belongs to the theme.
pub open spec fn has_theme_file(files: Seq<ThemeFile>, name: Seq<char>) -> bool {
    exists|i: int| 0 <= i < files.len() && (#[trigger] files[i]).theme@ == name
}

/// The names of `names`, in order, that have a file in the table.
pub open spec fn names_with_files(names: Seq<Seq<char>>, files: Seq<ThemeFile>) -> Seq<Seq<char>>
    decreases names.len(),
{
    if names.len() == 0 {
        seq![]
    } else {
        let rest = names_with_files(names.drop_last(), files);
        if has_theme_file(files, names.last()) {
            rest.push(names.last())
        } else {
            rest
        }
    }
}

/// Whether some file of the table belongs to the theme.
fn theme_has_file(files: &Vec<ThemeFile>, name: &str) -> (r: bool)
    ensures
        r == has_theme_file(files@, name@),
{
    let mut i: usize = 0;
    while i < files.len()
        invariant
            0 <= i <= files.len(),
            forall|j: int| 0 <= j < i ==> (#[trigger] files@[j]).theme@ != name@,
        decreases files.len() - i,
    {
        if str_eq(files[i].theme.as_str(), name) {
            assert(files@[i as int].theme@ == name@);
            return true;
        }
        i = i + 1;
    }
    false
}

/// The skin choices of a theme file table: the built-in themes that have
/// at least one file, in name order, each as (key, label) with the name as
/// both.
pub fn shipped_theme_choices(files: &Vec<ThemeFile>) -> (r: Vec<(String, String)>)
    ensures
        r.len() == names_with_files(spec_builtin_theme_names(), files@).len(),
        forall|i: int|
            0 <= i < r.len() ==> (#[trigger] r@[i]).0@ == names_with_files(
                spec_builtin_theme_names(),
                files@,
            )[i] && r@[i].1@ == names_with_files(spec_builtin_theme_names(), files@)[i],
{
    let names = builtin_theme_names();
    let ghost all = spec_builtin_theme_names();
    let mut out: Vec<(String, String)> = Vec::new();
    let mut i: usize = 0;
    assert(all.take(0) =~= Seq::<Seq<char>>::empty());
    while i < names.len()
        invariant
            0 <= i <= names.len(),
            string_views(names@) == all,
            all == spec_builtin_theme_names(),
            out.len() == names_with_files(all.take(i as int), files@).len(),
            forall|j: int|
                0 <= j < out.len() ==> (#[trigger] out@[j]).0@ == names_with_files(
                    all.take(i as int),
                    files@,
                )[j] && out@[j].1@ == names_with_files(all.take(i as int), files@)[j],
        decreases names.len() - i,
    {
        let ghost next = all.take(i + 1);
        assert(next.drop_last() =~= all.take(i as int));
        assert(next.last() == names@[i as int]@);
        if theme_has_file(files, names[i].as_str()) {
            let a = names[i].clone();
            let b = names[i].clone();
            out.push((a, b));
        }
        i = i + 1;
    }
    assert(all.take(names.len() as int) =~= all);
    out
}

/// Whether `name` is a built-in theme.
pub fn is_builtin_theme(name: &str) -> (r: bool)
    ensures
        r == spec_builtin_theme_names().contains(name@),
{
    let names = builtin_theme_names();
    let mut i: usize = 0;
    while i < names.len()
        invariant
            0 <= i <= names.len(),
            string_views(names@) == spec_builtin_theme_names(),
            forall|j: int| 0 <= j < i ==> spec_builtin_theme_names()[j] != name@,
        decreases names.len() - i,
    {
        assert(names@[i as int]@ == spec_builtin_theme_names()[i as int]);
        if str_eq(names[i].as_str(), name) {
            return true;
        }
        i = i + 1;
    }
    false
}

// ---------------------------------------------------------------------------
// Support, install, apply and reload
// ---------------------------------------------------------------------------

/// What the machine shows of an Fcitx5 installation.
pub struct ThemeProbes {
    /// `fcitx5` is on the search path.
    pub fcitx5_on_path: bool,
    /// `fcitx5-remote` is on the search path.
    pub fcitx5_remote_on_path: bool,
    /// `~/.local/share/fcitx5/themes` exists.
    pub theme_root_exists: bool,
    /// `~/.config/fcitx5/conf/classicui.conf` exists.
    pub classicui_config_exists: bool,
}

/// Some engine in the list is `fcitx5`.
pub open spec fn has_fcitx5_engine(engines: Seq<String>) -> bool {
    exists|i: int| 0 <= i < engines.len() && (#[trigger] engines[i])@ == "fcitx5"@
}

/// Fcitx5 themes are supported on Linux where Fcitx5 shows in any way.
pub open spec fn spec_theme_supported(
    platform: Platform,
    engines: Seq<String>,
    probes: ThemeProbes,
) -> bool {
    platform == Platform::Linux && (has_fcitx5_engine(engines) || probes.fcitx5_on_path
        || probes.fcitx5_remote_on_path || probes.theme_root_exists
        || probes.classicui_config_exists)
}

/// Whether Fcitx5 themes can be applied: on Linux, when `fcitx5` is among
/// the installed engines, either Fcitx5 binary is on the path, or the theme
/// directory or classic-UI configuration exists.
pub fn theme_supported(platform: Platform, installed_engines: &Vec<String>, probes: &ThemeProbes) -> (r:
    bool)
    ensures
        r == spec_theme_supported(platform, installed_engines@, *probes),
{
    match platform {
        Platform::Linux => {},
        _ => {
            return false;
        },
    }
    let mut i: usize = 0;
    while i < installed_engines.len()
        invariant
            platform == Platform::Linux,
            0 <= i <= installed_engines.len(),
            forall|j: int| 0 <= j < i ==> (#[trigger] installed_engines@[j])@ != "fcitx5"@,
        decreases installed_engines.len() - i,
    {
        if str_eq(installed_engines[i].as_str(), "fcitx5") {
            assert((installed_engines@[i as int])@ == "fcitx5"@);
            assert(has_fcitx5_engine(installed_engines@));
            return true;
        }
        i = i + 1;
    }
    probes.fcitx5_on_path || probes.fcitx5_remote_on_path || probes.theme_root_exists
        || probes.classicui_config_exists
}

/// One file of a built-in theme: the theme and the path inside its directory.
pub struct ThemeFile {
    pub theme: String,
    pub rel_path: String,
}

/// Why a theme cannot be installed.
#[derive(Clone, Copy, Debug, PartialEq, Eq, Structural)]
pub enum ThemeError {
    /// The theme is not built in.
    UnknownTheme,
    /// The theme is built in but no file of it is.
    NoFiles,
}

/// The positions, in order, of the files that belong to `theme`.
pub open spec fn theme_file_positions(files: Seq<ThemeFile>, theme: Seq<char>) -> Seq<int>
    decreases files.len(),
{
    if files.len() == 0 {
        seq![]
    } else {
        let rest = theme_file_positions(files.drop_last(), theme);
        if files.last().theme@ == theme {
            rest.push(files.len() - 1)
        } else {
            rest
        }
    }
}

/// Views of a vector of positions.
pub open spec fn positions(v: Seq<usize>) -> Seq<int> {
    v.map_values(|x: usize| x as int)
}

/// The files to write when installing `theme_name`: every file of the theme
/// in table order. A theme that is not built in, or has no file, is refused.
pub fn install_theme(theme_name: &str, files: &Vec<ThemeFile>) -> (r: Result<Vec<usize>, ThemeError>)
    ensures
        !spec_builtin_theme_names().contains(theme_name@) <==> r == Err::<Vec<usize>, ThemeError>(
            ThemeError::UnknownTheme,
        ),
        r matches Ok(v) ==> positions(v@) == theme_file_positions(files@, theme_name@)
            && v.len() > 0,
        spec_builtin_theme_names().contains(theme_name@) && theme_file_positions(
            files@,
            theme_name@,
        ).len() == 0 ==> r == Err::<Vec<usize>, ThemeError>(ThemeError::NoFiles),
        r matches Err(e) ==> (e == ThemeError::UnknownTheme && !spec_builtin_theme_names().contains(
            theme_name@,
        )) || (e == ThemeError::NoFiles && spec_builtin_theme_names().contains(theme_name@)
            && theme_file_positions(files@, theme_name@).len() == 0),
{
    if !is_builtin_theme(theme_name) {
        return Err(ThemeError::UnknownTheme);
    }
    let mut out: Vec<usize> = Vec::new();
    let mut i: usize = 0;
    assert(files@.take(0) =~= Seq::<ThemeFile>::empty());
    while i < files.len()
        invariant
            0 <= i <= files.len(),
            positions(out@) == theme_file_positions(files@.take(i as int), theme_name@),
        decreases files.len() - i,
    {
        let ghost before = positions(out@);
        assert(files@.take(i + 1).drop_last() =~= files@.take(i as int));
        assert(files@.take(i + 1).last() == files@[i as int]);
        if str_eq(files[i].theme.as_str(), theme_name) {
            out.push(i);
            assert(positions(out@) =~= before.push(i as int));
        }
        i = i + 1;
    }
    assert(files@.take(files.len() as int) =~= files@);
    if out.len() == 0 {
        return Err(ThemeError::NoFiles);
    }
    Ok(out)
}

/// What applying a theme writes: the theme files and the new
/// `classicui.conf` text.
pub struct ThemeApplyPlan {
    /// Positions of the theme's files in the file table.
    pub files: Vec<usize>,
    /// The configuration text with `Theme=<name>`.
    pub config: String,
}

/// Applying a theme: install its files, then set `Theme=<name>` in the
/// classic-UI configuration (empty when the file does not exist yet).
pub fn apply_theme(theme_name: &str, files: &Vec<ThemeFile>, current_config: Option<&str>) -> (r:
    Result<ThemeApplyPlan, ThemeError>)
    ensures
        match r {
            Ok(plan) => {
                &&& spec_builtin_theme_names().contains(theme_name@)
                &&& positions(plan.files@) == theme_file_positions(files@, theme_name@)
                &&& plan.files.len() > 0
                &&& plan.config@ == spec_upsert(
                    match current_config {
                        Some(c) => c@,
                        None => Seq::<char>::empty(),
                    },
                    "Theme"@,
                    theme_name@,
                )
            },
            Err(e) => {
                ||| (!spec_builtin_theme_names().contains(theme_name@) && e
                    == ThemeError::UnknownTheme)
                ||| (spec_builtin_theme_names().contains(theme_name@) && theme_file_positions(
                    files@,
                    theme_name@,
                ).len() == 0 && e == ThemeError::NoFiles)
            },
        },
{
    let chosen = match install_theme(theme_name, files) {
        Ok(v) => v,
        Err(e) => {
            return Err(e);
        },
    };
    let config = match current_config {
        Some(c) => upsert_key_value(c, "Theme", theme_name),
        None => upsert_key_value("", "Theme", theme_name),
    };
    proof {
        if current_config is None {
            assert(""@ =~= Seq::<char>::empty()) by {
                reveal_strlit("");
            }
        }
    }
    Ok(ThemeApplyPlan { files: chosen, config })
}

/// The theme currently selected: nothing when `classicui.conf` does not
/// exist, else what `read_theme_key` finds in it.
pub fn current_theme(config: Option<&str>) -> (r: Option<String>)
    ensures
        opt_view(r) == match config {
            Some(c) => spec_read_key(c@, "Theme"@),
            None => None,
        },
{
    match config {
        Some(c) => read_theme_key(c),
        None => None,
    }
}

/// Read after write for themes: after a theme is applied, the current theme
/// is that theme, whatever the configuration held before.
pub proof fn law_current_theme_after_apply(config: Seq<char>, theme: Seq<char>)
    requires
        no_newline(theme),
        trim(theme) == theme,
        theme.len() > 0,
    ensures
        spec_read_key(spec_upsert(config, "Theme"@, theme), "Theme"@) == Some(theme),
{
    reveal_strlit("Theme");
    let key = "Theme"@;
    assert(key[0] == 'T');
    assert(key[key.len() - 1] == 'e');
    crate::text::lemma_trim_start_skip(key, 0);
    assert(key.skip(0) =~= key);
    crate::text::lemma_trim_end_take(key, key.len() as int);
    assert(key.take(key.len() as int) =~= key);
    law_read_after_upsert(config, key, theme);
}

/// Ways to make a running Fcitx5 reload its theme, tried in order.
#[derive(Clone, Copy, Debug, PartialEq, Eq, Structural)]
pub enum ReloadStep {
    /// `qdbus6 org.fcitx.Fcitx5 /controller ...ReloadAddonConfig classicui`.
    Qdbus6,
    /// `fcitx5-remote -r`.
    Fcitx5Remote,
    /// Redeploy the `fcitx5` engine.
    DeployFcitx5,
}

/// The next way to reload the theme: `qdbus6` first, then `fcitx5-remote`
/// when it failed, then a redeploy when that failed; nothing after a success
/// or after the redeploy, whose outcome is final.
pub fn reload_theme(previous: Option<(ReloadStep, bool)>) -> (r: Option<ReloadStep>)
    ensures
        r == match previous {
            None => Some(ReloadStep::Qdbus6),
            Some((_, true)) => None,
            Some((ReloadStep::Qdbus6, false)) => Some(ReloadStep::Fcitx5Remote),
            Some((ReloadStep::Fcitx5Remote, false)) => Some(ReloadStep::DeployFcitx5),
            Some((ReloadStep::DeployFcitx5, false)) => None,
        },
{
    match previous {
        None => Some(ReloadStep::Qdbus6),
        Some((step, ok)) => {
            if ok {
                None
            } else {
                match step {
                    ReloadStep::Qdbus6 => Some(ReloadStep::Fcitx5Remote),
                    ReloadStep::Fcitx5Remote => Some(ReloadStep::DeployFcitx5),
                    ReloadStep::DeployFcitx5 => None,
                }
            }
        },
    }
}

/// The themes installed in the theme directory: the names of its
/// subdirectories, in listing order; none when the directory is missing.
pub open spec fn spec_installed_themes(root_exists: bool, entries: Seq<(String, bool)>) -> Seq<
    Seq<char>,
>
    decreases entries.len(),
{
    if !root_exists || entries.len() == 0 {
        seq![]
    } else {
        let rest = spec_installed_themes(root_exists, entries.drop_last());
        if entries.last().1 {
            rest.push(entries.last().0@)
        } else {
            rest
        }
    }
}

/// The installed themes of a theme directory listing of (name, is a
/// directory) entries.
pub fn installed_theme_names(root_exists: bool, entries: &Vec<(String, bool)>) -> (r: Vec<String>)
    ensures
        string_views(r@) == spec_installed_themes(root_exists, entries@),
{
    let mut out: Vec<String> = Vec::new();
    if !root_exists {
        assert(string_views(out@) =~= Seq::<Seq<char>>::empty());
        return out;
    }
    let mut i: usize = 0;
    assert(entries@.take(0) =~= Seq::<(String, bool)>::empty());
    assert(string_views(out@) =~= Seq::<Seq<char>>::empty());
    while i < entries.len()
        invariant
            root_exists,
            0 <= i <= entries.len(),
            string_views(out@) == spec_installed_themes(root_exists, entries@.take(i as int)),
        decreases entries.len() - i,
    {
        let ghost next = entries@.take(i + 1);
        assert(next.drop_last() =~= entries@.take(i as int));
        assert(next.last() == entries@[i as int]);
        let ghost before = string_views(out@);
        if entries[i].1 {
            let name = entries[i].0.clone();
            out.push(name);
            assert(string_views(out@) =~= before.push(entries@[i as int].0@));
        }
        i = i + 1;
    }
    assert(entries@.take(entries.len() as int) =~= entries@);
    out
}

} // verus!

//! Paths, as texts with `/` between their parts.
use crate::text::{chars_of, text_of, text_of_ref};
use vstd::prelude::*;
use vstd::string::*;

verus! {

/// `name` below `base`. An absolute `name` stands for itself, and so does any below an empty
/// base.
pub open spec fn joined(base: Seq<char>, name: Seq<char>) -> Seq<char> {
    if base.len() == 0 || (name.len() > 0 && name[0] == '/') {
        name
    } else if base.last() == '/' {
        base + name
    } else {
        base + "/"@ + name
    }
}

/// `name` below `base`.
pub fn join_path(base: &str, name: &str) -> (path: String)
    ensures
        path@ == joined(base@, name@),
{
    let base_chars = chars_of(base);
    let name_chars = chars_of(name);
    if base_chars.len() == 0 || (name_chars.len() > 0 && name_chars[0] == '/') {
        return name.to_owned();
    }
    let mut out = base.to_owned();
    if base_chars[base_chars.len() - 1] != '/' {
        out.append("/");
    }
    out.append(name);
    out
}

/// Whether `s` ends with `suffix`.
pub open spec fn ends_with(s: Seq<char>, suffix: Seq<char>) -> bool {
    s.len() >= suffix.len() && s.skip(s.len() - suffix.len()) == suffix
}

/// Whether a file name has the extension `jsonl`.
pub open spec fn is_session_name(name: Seq<char>) -> bool {
    ends_with(name, ".jsonl"@) && name.len() > ".jsonl"@.len()
}

/// Whether a file name has the extension `jsonl`: it ends with a point and that extension, and
/// something stands before the point.
pub fn is_session_file(file_name: &str) -> (r: bool)
    ensures
        r == is_session_name(file_name@),
        r == (ends_with(file_name@, ".jsonl"@) && file_name@.len() > ".jsonl"@.len()),
{
    let chars = chars_of(file_name);
    proof {
        reveal_strlit(".jsonl");
    }
    if chars.len() <= 6 {
        return false;
    }
    let tail = text_of(&chars, chars.len() - 6, chars.len());
    proof {
        assert(chars@.subrange(chars@.len() - 6, chars@.len() as int) =~= chars@.skip(
            chars@.len() - 6,
        ));
    }
    tail == ".jsonl".to_owned()
}

/// Where the login of the command-line tool is kept: in its own home, or below the home of the
/// user, or in the working directory.
pub open spec fn auth_path_of(codex_home: Option<Seq<char>>, home: Option<Seq<char>>) -> Seq<
    char,
> {
    match codex_home {
        Some(base) => joined(base, "auth.json"@),
        None => match home {
            Some(base) => joined(base, ".codex/auth.json"@),
            None => "auth.json"@,
        },
    }
}

/// Where the login of the command-line tool is kept. Only whether this file is there is ever
/// asked, never what it holds.
pub fn codex_auth_path(codex_home: Option<&str>, home: Option<&str>) -> (path: String)
    ensures
        path@ == auth_path_of(text_of_ref(codex_home), text_of_ref(home)),
{
    match codex_home {
        Some(base) => join_path(base, "auth.json"),
        None => match home {
            Some(base) => join_path(base, ".codex/auth.json"),
            None => "auth.json".to_owned(),
        },
    }
}

/// Where the desktop looks for the icon of the tray.
pub open spec fn icon_dir_of(home: Option<Seq<char>>) -> Seq<char> {
    match home {
        Some(base) => joined(base, ".local/share/icons/hicolor/scalable/apps"@),
        None => "/tmp/StatusBar-Codex-Linux-icons"@,
    }
}

/// Where the desktop looks for the icon of the tray.
pub fn home_icon_dir(home: Option<&str>) -> (path: String)
    ensures
        path@ == icon_dir_of(text_of_ref(home)),
{
    match home {
        Some(base) => join_path(base, ".local/share/icons/hicolor/scalable/apps"),
        None => "/tmp/StatusBar-Codex-Linux-icons".to_owned(),
    }
}

/// Whether `a` comes before `b` in the order of their characters, as in a dictionary.
pub open spec fn comes_before(a: Seq<char>, b: Seq<char>) -> bool
    decreases a.len(),
{
    if b.len() == 0 {
        false
    } else if a.len() == 0 {
        true
    } else if a[0] != b[0] {
        a[0] < b[0]
    } else {
        comes_before(a.skip(1), b.skip(1))
    }
}

proof fn lemma_order_is_total(a: Seq<char>, b: Seq<char>)
    ensures
        !comes_before(a, b) && !comes_before(b, a) ==> a == b,
        !(comes_before(a, b) && comes_before(b, a)),
        comes_before(a, b) ==> a != b,
    decreases a.len(),
{
    if a.len() > 0 && b.len() > 0 && a[0] == b[0] {
        lemma_order_is_total(a.skip(1), b.skip(1));
        if a.skip(1) == b.skip(1) {
            assert(a =~= seq![a[0]] + a.skip(1));
            assert(b =~= seq![b[0]] + b.skip(1));
            assert(a =~= b);
        }
    } else if a.len() == 0 && b.len() == 0 {
        assert(a =~= b);
    }
}

proof fn lemma_order_is_transitive(a: Seq<char>, b: Seq<char>, c: Seq<char>)
    requires
        !comes_before(b, a),
        !comes_before(c, b),
    ensures
        !comes_before(c, a),
    decreases a.len(),
{
    if a.len() > 0 && c.len() > 0 && b.len() > 0 && a[0] == b[0] && b[0] == c[0] {
        lemma_order_is_transitive(a.skip(1), b.skip(1), c.skip(1));
    }
}

fn precedes(a: &String, b: &String) -> (r: bool)
    ensures
        r == comes_before(a@, b@),
{
    let x = chars_of(a.as_str());
    let y = chars_of(b.as_str());
    let mut i: usize = 0;
    proof {
        assert(x@.skip(0) =~= x@);
        assert(y@.skip(0) =~= y@);
    }
    while i < x.len() && i < y.len() && x[i] == y[i]
        invariant
            i <= x@.len(),
            i <= y@.len(),
            comes_before(x@, y@) == comes_before(x@.skip(i as int), y@.skip(i as int)),
        decreases x@.len() - i,
    {
        proof {
            assert(x@.skip(i as int).skip(1) =~= x@.skip(i + 1));
            assert(y@.skip(i as int).skip(1) =~= y@.skip(i + 1));
        }
        i += 1;
    }
    if i >= y.len() {
        false
    } else if i >= x.len() {
        true
    } else {
        x[i] < y[i]
    }
}

/// The texts of a list.
pub open spec fn texts_of(list: Seq<String>) -> Seq<Seq<char>> {
    list.map_values(|s: String| s@)
}

/// Whether a list goes from the last to the first in dictionary order.
pub open spec fn descending(s: Seq<Seq<char>>) -> bool {
    forall|i: int, j: int| 0 <= i <= j < s.len() ==> !comes_before(#[trigger] s[i], #[trigger] s[j])
}

/// `e` put in its place in a descending list.
pub open spec fn placed(s: Seq<Seq<char>>, e: Seq<char>) -> Seq<Seq<char>>
    decreases s.len(),
{
    if s.len() == 0 || !comes_before(s.last(), e) {
        s.push(e)
    } else {
        placed(s.drop_last(), e).push(s.last())
    }
}

/// A list from the last to the first in dictionary order.
pub open spec fn sorted_down(s: Seq<Seq<char>>) -> Seq<Seq<char>>
    decreases s.len(),
{
    if s.len() == 0 {
        s
    } else {
        placed(sorted_down(s.drop_last()), s.last())
    }
}

proof fn lemma_placed(s: Seq<Seq<char>>, e: Seq<char>)
    requires
        descending(s),
    ensures
        descending(placed(s, e)),
        placed(s, e).to_multiset() == s.to_multiset().insert(e),
        forall|i: int|
            0 <= i < placed(s, e).len() ==> !comes_before(#[trigger] placed(s, e)[i], e) || (
            s.len() > 0 && !comes_before(placed(s, e)[i], s.last())),
    decreases s.len(),
{
    broadcast use vstd::seq_lib::group_to_multiset_ensures;

    lemma_order_is_total(e, e);
    if s.len() == 0 || !comes_before(s.last(), e) {
        let t = s.push(e);
        assert forall|i: int| 0 <= i < t.len() implies !comes_before(#[trigger] t[i], e) by {
            if i < s.len() {
                assert(!comes_before(s[i], s[s.len() - 1]));
                lemma_order_is_transitive(e, s.last(), s[i]);
            }
        }
        assert forall|i: int, j: int| 0 <= i <= j < t.len() implies !comes_before(
            #[trigger] t[i],
            #[trigger] t[j],
        ) by {
            if j < s.len() {
                assert(!comes_before(s[i], s[j]));
            }
        }
    } else {
        let front = s.drop_last();
        assert forall|i: int, j: int| 0 <= i <= j < front.len() implies !comes_before(
            #[trigger] front[i],
            #[trigger] front[j],
        ) by {
            assert(front[i] == s[i] && front[j] == s[j]);
        }
        lemma_placed(front, e);
        let mid = placed(front, e);
        let t = mid.push(s.last());
        lemma_order_is_total(s.last(), e);
        lemma_order_is_total(s.last(), s.last());
        assert forall|i: int| 0 <= i < t.len() implies !comes_before(#[trigger] t[i], s.last()) by {
            if i < mid.len() {
                assert(t[i] == mid[i]);
                if !comes_before(mid[i], e) {
                    lemma_order_is_transitive(s.last(), e, mid[i]);
                } else {
                    assert(!comes_before(s[s.len() - 2], s[s.len() - 1]));
                    lemma_order_is_transitive(s.last(), front.last(), mid[i]);
                }
            }
        }
        assert forall|i: int, j: int| 0 <= i <= j < t.len() implies !comes_before(
            #[trigger] t[i],
            #[trigger] t[j],
        ) by {
            if j < mid.len() {
                assert(t[i] == mid[i] && t[j] == mid[j]);
            }
        }
        assert(s =~= front.push(s.last()));
        assert(t.to_multiset() =~= s.to_multiset().insert(e));
    }
}

/// A list that is sorted down holds what it held before, from the last to the first.
pub proof fn law_sorting_keeps_the_list(s: Seq<Seq<char>>)
    ensures
        descending(sorted_down(s)),
        sorted_down(s).to_multiset() == s.to_multiset(),
    decreases s.len(),
{
    broadcast use vstd::seq_lib::group_to_multiset_ensures;

    if s.len() > 0 {
        law_sorting_keeps_the_list(s.drop_last());
        lemma_placed(sorted_down(s.drop_last()), s.last());
        assert(s =~= s.drop_last().push(s.last()));
    }
}

proof fn lemma_place(s: Seq<Seq<char>>, e: Seq<char>, p: int)
    requires
        0 <= p <= s.len(),
        p == 0 || !comes_before(s[p - 1], e),
        forall|i: int| p <= i < s.len() ==> comes_before(#[trigger] s[i], e),
    ensures
        placed(s, e) == s.insert(p, e),
    decreases s.len(),
{
    if p == s.len() {
        assert(s.insert(p, e) =~= s.push(e));
    } else {
        let front = s.drop_last();
        assert(comes_before(s[s.len() - 1], e));
        assert forall|i: int| p <= i < front.len() implies comes_before(#[trigger] front[i], e) by {
            assert(front[i] == s[i]);
        }
        lemma_place(front, e, p);
        assert(s.insert(p, e) =~= front.insert(p, e).push(s.last()));
    }
}

fn sort_down(list: &Vec<String>) -> (sorted: Vec<String>)
    ensures
        texts_of(sorted@) == sorted_down(texts_of(list@)),
{
    let ghost all = texts_of(list@);
    let mut sorted: Vec<String> = Vec::new();
    let mut i: usize = 0;
    proof {
        assert(texts_of(sorted@) =~= sorted_down(all.take(0)));
    }
    while i < list.len()
        invariant
            i <= list@.len(),
            all == texts_of(list@),
            texts_of(sorted@) == sorted_down(all.take(i as int)),
        decreases list@.len() - i,
    {
        let ghost before = texts_of(sorted@);
        let entry = list[i].clone();
        let mut p: usize = sorted.len();
        while p > 0 && precedes(&sorted[p - 1], &entry)
            invariant
                p <= sorted@.len(),
                before == texts_of(sorted@),
                forall|j: int| p <= j < sorted@.len() ==> comes_before(#[trigger] before[j], entry@),
            decreases p,
        {
            p -= 1;
            proof {
                assert(before[p as int] == sorted@[p as int]@);
            }
        }
        proof {
            if p > 0 {
                assert(before[p - 1] == sorted@[p - 1]@);
            }
            assert(entry@ == all[i as int]);
            lemma_place(before, entry@, p as int);
            assert(all.take(i + 1).drop_last() =~= all.take(i as int));
        }
        let ghost e = entry@;
        sorted.insert(p, entry);
        proof {
            assert(texts_of(sorted@) =~= before.insert(p as int, e));
        }
        i += 1;
    }
    proof {
        assert(all.take(all.len() as int) =~= all);
    }
    sorted
}

/// Each of `dirs` with `name` below it.
pub open spec fn below_each(dirs: Seq<Seq<char>>, name: Seq<char>) -> Seq<Seq<char>> {
    dirs.map_values(|dir: Seq<char>| joined(dir, name))
}

/// The places below the home of the user at which the command-line tool may be installed.
/// `versions` are the names of the installed runtimes; newer names come first.
pub open spec fn home_places(home: Option<Seq<char>>, versions: Seq<Seq<char>>) -> Seq<Seq<char>> {
    match home {
        Some(base) => seq![joined(base, ".local/bin/codex"@), joined(base, ".cargo/bin/codex"@)]
            + below_each(
            sorted_down(versions).map_values(
                |version: Seq<char>| joined(joined(base, ".nvm/versions/node"@), version),
            ),
            "bin/codex"@,
        ),
        None => Seq::empty(),
    }
}

/// The places at which the command-line tool may be installed, in the order in which they are
/// tried.
pub open spec fn places(
    path_dirs: Seq<Seq<char>>,
    home: Option<Seq<char>>,
    versions: Seq<Seq<char>>,
) -> Seq<Seq<char>> {
    below_each(path_dirs, "codex"@) + home_places(home, versions) + seq![
        "/usr/local/bin/codex"@,
        "/usr/bin/codex"@,
    ]
}

/// The places at which the command-line tool may be installed, in the order in which they are
/// tried: the search path, the usual places below the home of the user, the installed runtimes
/// from the last name to the first, and the places of the system.
pub fn codex_candidates(path_dirs: &Vec<String>, home: Option<&str>, versions: &Vec<String>) -> (
    candidates: Vec<String>)
    ensures
        texts_of(candidates@) == places(texts_of(path_dirs@), text_of_ref(home), texts_of(versions@)),
{
    let mut out: Vec<String> = Vec::new();
    let ghost dirs = texts_of(path_dirs@);
    let ghost first = below_each(dirs, "codex"@);
    let mut i: usize = 0;
    while i < path_dirs.len()
        invariant
            i <= path_dirs@.len(),
            dirs == texts_of(path_dirs@),
            first == below_each(dirs, "codex"@),
            texts_of(out@) =~= first.take(i as int),
        decreases path_dirs@.len() - i,
    {
        let ghost before = texts_of(out@);
        out.push(join_path(path_dirs[i].as_str(), "codex"));
        proof {
            assert(texts_of(out@) =~= before.push(first[i as int]));
        }
        i += 1;
    }
    proof {
        assert(first.take(first.len() as int) =~= first);
    }
    let ghost wanted = home_places(text_of_ref(home), texts_of(versions@));
    if let Some(base) = home {
        let ghost before = texts_of(out@);
        out.push(join_path(base, ".local/bin/codex"));
        out.push(join_path(base, ".cargo/bin/codex"));
        let runtimes = join_path(base, ".nvm/versions/node");
        let sorted = sort_down(versions);
        proof {
            assert(texts_of(out@) =~= before + wanted.take(2));
        }
        let mut k: usize = 0;
        while k < sorted.len()
            invariant
                k <= sorted@.len(),
                texts_of(sorted@) == sorted_down(texts_of(versions@)),
                runtimes@ == joined(base@, ".nvm/versions/node"@),
                wanted == home_places(Some(base@), texts_of(versions@)),
                wanted.len() == sorted@.len() + 2,
                texts_of(out@) == before + wanted.take(k + 2),
            decreases sorted@.len() - k,
        {
            let ghost prior = texts_of(out@);
            let dir = join_path(runtimes.as_str(), sorted[k].as_str());
            out.push(join_path(dir.as_str(), "bin/codex"));
            proof {
                assert(texts_of(sorted@)[k as int] == sorted@[k as int]@);
                assert(texts_of(out@) =~= prior.push(wanted[k + 2]));
                assert(texts_of(out@) =~= before + wanted.take(k + 3));
            }
            k += 1;
        }
        proof {
            assert(wanted.take(wanted.len() as int) =~= wanted);
        }
    }
    let ghost before = texts_of(out@);
    proof {
        assert(before =~= first + wanted);
    }
    out.push("/usr/local/bin/codex".to_owned());
    out.push("/usr/bin/codex".to_owned());
    proof {
        assert(texts_of(out@) =~= before + seq!["/usr/local/bin/codex"@, "/usr/bin/codex"@]);
    }
    out
}

/// The first of `candidates` that is there, or the bare name of the tool.
pub open spec fn first_present(candidates: Seq<Seq<char>>, present: Seq<bool>) -> Seq<char>
    decreases candidates.len(),
{
    if candidates.len() == 0 {
        "codex"@
    } else if present[0] {
        candidates[0]
    } else {
        first_present(candidates.skip(1), present.skip(1))
    }
}

/// The command-line tool to run.
pub open spec fn tool_to_run(
    preferred: Option<Seq<char>>,
    candidates: Seq<Seq<char>>,
    present: Seq<bool>,
) -> Seq<char> {
    if preferred is Some && preferred->0.len() > 0 {
        preferred->0
    } else {
        first_present(candidates, present)
    }
}

/// The command-line tool to run: `preferred` where it is given and not empty, else the first
/// of `candidates` that is there, else the bare name of the tool. `present` says of each
/// candidate whether it is there.
pub fn choose_codex_bin(
    preferred: Option<&str>,
    candidates: &Vec<String>,
    present: &Vec<bool>,
) -> (bin: String)
    requires
        present@.len() == candidates@.len(),
    ensures
        bin@ == tool_to_run(text_of_ref(preferred), texts_of(candidates@), present@),
        bin@ == (if preferred is Some && preferred->0@.len() > 0 {
            preferred->0@
        } else {
            first_present(texts_of(candidates@), present@)
        }),
{
    if let Some(path) = preferred {
        if !path.is_empty() {
            return path.to_owned();
        }
    }
    let ghost all = texts_of(candidates@);
    let mut i: usize = 0;
    proof {
        assert(all.skip(0) =~= all);
        assert(present@.skip(0) =~= present@);
    }
    while i < candidates.len()
        invariant
            i <= candidates@.len(),
            present@.len() == candidates@.len(),
            !(preferred is Some && preferred->0@.len() > 0),
            all == texts_of(candidates@),
            first_present(all, present@) == first_present(
                all.skip(i as int),
                present@.skip(i as int),
            ),
        decreases candidates@.len() - i,
    {
        proof {
            assert(all.skip(i as int)[0] == candidates@[i as int]@);
            assert(present@.skip(i as int)[0] == present@[i as int]);
            assert(all.skip(i as int).skip(1) =~= all.skip(i + 1));
            assert(present@.skip(i as int).skip(1) =~= present@.skip(i + 1));
        }
        if present[i] {
            return candidates[i].clone();
        }
        i += 1;
    }
    "codex".to_owned()
}

/// A name below a directory follows it after one slash, whether the directory ends with one or not. An
/// absolute name stands for itself, and so does a name below nothing.
pub proof fn law_names_stand_below_their_directory(base: Seq<char>, name: Seq<char>)
    ensures
        joined(Seq::empty(), name) == name,
        name.len() > 0 && name[0] == '/' ==> joined(base, name) == name,
        base.len() > 0 && base.last() != '/' && !(name.len() > 0 && name[0] == '/') ==> joined(
            base,
            name,
        ) == base + seq!['/'] + name,
        !(name.len() > 0 && name[0] == '/') ==> joined(base.push('/'), name) == base + seq!['/']
            + name,
{
    reveal_strlit("/");
    assert("/"@ =~= seq!['/']);
    assert(base.push('/') + name =~= base + seq!['/'] + name);
}

/// A text ends with another exactly where something stands before that.
pub proof fn law_a_text_ends_with_its_end(front: Seq<char>, suffix: Seq<char>, s: Seq<char>)
    ensures
        ends_with(front + suffix, suffix),
        ends_with(s, suffix) ==> s == s.take(s.len() - suffix.len()) + suffix,
{
    assert((front + suffix).skip((front + suffix).len() - suffix.len()) =~= suffix);
    if ends_with(s, suffix) {
        assert(s =~= s.take(s.len() - suffix.len()) + s.skip(s.len() - suffix.len()));
    }
}

/// The login is kept in the home of the tool where there is one, else below the home of the user, and
/// else in the working directory.
pub proof fn law_the_login_is_kept_at_home(codex_home: Seq<char>, home: Option<Seq<char>>)
    requires
        codex_home.len() > 0,
        codex_home.last() != '/',
        home is Some ==> home->0.len() > 0 && home->0.last() != '/',
    ensures
        auth_path_of(Some(codex_home), home) == codex_home + "/"@ + "auth.json"@,
        home is Some ==> auth_path_of(None, home) == home->0 + "/"@ + ".codex/auth.json"@,
        auth_path_of(None, None) == "auth.json"@,
        home is Some ==> icon_dir_of(home) == home->0 + "/"@
            + ".local/share/icons/hicolor/scalable/apps"@,
        icon_dir_of(None) == "/tmp/StatusBar-Codex-Linux-icons"@,
{
    reveal_strlit("auth.json");
    reveal_strlit(".codex/auth.json");
    reveal_strlit(".local/share/icons/hicolor/scalable/apps");
}

/// Texts are in the order of a dictionary: a text comes before every longer text that starts with it,
/// and of two texts the first character that differs decides.
pub proof fn law_texts_are_in_the_order_of_a_dictionary(
    common: Seq<char>,
    a: char,
    rest: Seq<char>,
    b: char,
    other: Seq<char>,
)
    ensures
        comes_before(common, common + seq![a] + rest),
        !comes_before(common + seq![a] + rest, common),
        !comes_before(common, common),
        a < b ==> comes_before(common + seq![a] + rest, common + seq![b] + other),
        a < b ==> !comes_before(common + seq![b] + other, common + seq![a] + rest),
    decreases common.len(),
{
    let x = common + seq![a] + rest;
    let y = common + seq![b] + other;
    if common.len() > 0 {
        let tail = common.skip(1);
        law_texts_are_in_the_order_of_a_dictionary(tail, a, rest, b, other);
        assert(x.skip(1) =~= tail + seq![a] + rest);
        assert(y.skip(1) =~= tail + seq![b] + other);
    } else {
        assert(x[0] == a);
        assert(y[0] == b);
    }
}

/// The tool is looked for in each directory of the search path in turn, then at the usual places below
/// the home of the user, then in the installed runtimes, then at the places of the system.
pub proof fn law_the_tool_is_looked_for_in_order(
    dirs: Seq<Seq<char>>,
    home: Option<Seq<char>>,
    versions: Seq<Seq<char>>,
    i: int,
)
    ensures
        ({
            let all = places(dirs, home, versions);
            let n = dirs.len() as int;
            let v = versions.len() as int;
            &&& 0 <= i < n ==> all[i] == joined(dirs[i], "codex"@)
            &&& home is None ==> all.len() == n + 2
            &&& home is Some ==> all.len() == n + 2 + v + 2
            &&& home is Some ==> all[n] == joined(home->0, ".local/bin/codex"@)
            &&& home is Some ==> all[n + 1] == joined(home->0, ".cargo/bin/codex"@)
            &&& home is Some && 0 <= i < v ==> all[n + 2 + i] == joined(
                joined(joined(home->0, ".nvm/versions/node"@), sorted_down(versions)[i]),
                "bin/codex"@,
            )
            &&& all[all.len() - 2] == "/usr/local/bin/codex"@
            &&& all[all.len() - 1] == "/usr/bin/codex"@
        }),
{
    lemma_sorted_len(versions);
}

proof fn lemma_sorted_len(s: Seq<Seq<char>>)
    ensures
        sorted_down(s).len() == s.len(),
    decreases s.len(),
{
    if s.len() > 0 {
        lemma_sorted_len(s.drop_last());
        lemma_placed_len(sorted_down(s.drop_last()), s.last());
    }
}

proof fn lemma_placed_len(s: Seq<Seq<char>>, e: Seq<char>)
    ensures
        placed(s, e).len() == s.len() + 1,
    decreases s.len(),
{
    if s.len() > 0 && comes_before(s.last(), e) {
        lemma_placed_len(s.drop_last(), e);
    }
}

/// The first place at which the tool is there is taken, and the bare name where it is nowhere.
pub proof fn law_the_first_place_that_is_there_is_taken(
    candidates: Seq<Seq<char>>,
    present: Seq<bool>,
    i: int,
)
    requires
        present.len() == candidates.len(),
        0 <= i <= candidates.len(),
        forall|j: int| 0 <= j < i ==> !#[trigger] present[j],
        i < candidates.len() ==> present[i],
    ensures
        i < candidates.len() ==> first_present(candidates, present) == candidates[i],
        i == candidates.len() ==> first_present(candidates, present) == "codex"@,
    decreases candidates.len(),
{
    if i > 0 {
        assert(!present[0]);
        let rest = present.skip(1);
        assert forall|j: int| 0 <= j < i - 1 implies !#[trigger] rest[j] by {
            assert(rest[j] == present[j + 1]);
        }
        law_the_first_place_that_is_there_is_taken(candidates.skip(1), rest, i - 1);
    }
}

/// A session file is one whose name ends with `.jsonl` after something else, and no other.
pub proof fn law_session_files_end_with_their_extension(front: Seq<char>, name: Seq<char>)
    ensures
        front.len() > 0 ==> is_session_name(front + ".jsonl"@),
        !is_session_name(".jsonl"@),
        is_session_name(name) ==> name.len() > 6 && name == name.take(name.len() - 6) + ".jsonl"@,
{
    reveal_strlit(".jsonl");
    law_a_text_ends_with_its_end(front, ".jsonl"@, name);
}

/// A tool that is named is run, whatever else is there; an empty name names none.
pub proof fn law_a_named_tool_is_run(
    name: Seq<char>,
    candidates: Seq<Seq<char>>,
    present: Seq<bool>,
)
    ensures
        name.len() > 0 ==> tool_to_run(Some(name), candidates, present) == name,
        tool_to_run(Some(Seq::empty()), candidates, present) == first_present(candidates, present),
        tool_to_run(None, candidates, present) == first_present(candidates, present),
{
}

} // verus!

//! File paths as text.
use crate::text::{
    cat2, cat3, chars_of, ends_with, first_index, has_prefix, has_suffix, join, joined,
    law_pieces_make_up_the_text, lemma_first_index_bounds, lemma_first_index_is, lemma_joined_push,
    opt_text, pieces, same, split, starts_with, string_of, texts,
};
use vstd::prelude::*;

verus! {

/// What the `Debug` format of `std::path::Path` yields for a path: the path in
/// quotes, with escapes.
pub uninterp spec fn debug_path_quoted(path: Seq<char>) -> Seq<char>;

/// Formats a path with `{:?}`. Which characters are escaped is not restated:
/// the result is named, as a function of the characters alone.
#[verifier::external_body]
pub(crate) fn debug_path(path: &str) -> (r: String)
    ensures
        r@ == debug_path_quoted(path@),
{
    format!("{:?}", std::path::Path::new(path))
}

/// The path `b` below the path `a`. An absolute `b` stands alone.
pub open spec fn path_join(a: Seq<char>, b: Seq<char>) -> Seq<char> {
    if has_prefix(b, "/"@) || a.len() == 0 {
        b
    } else if has_suffix(a, "/"@) {
        a + b
    } else {
        a + "/"@ + b
    }
}

/// The path `b` below the path `a`.
pub fn join_path(a: &str, b: &str) -> (r: String)
    ensures
        r@ == path_join(a@, b@),
{
    if starts_with(b, "/") || a.is_empty() {
        b.to_owned()
    } else if ends_with(a, "/") {
        cat2(a, b)
    } else {
        cat3(a, "/", b)
    }
}

/// The last of `parts` that is neither empty nor a single dot.
pub open spec fn last_component(parts: Seq<Seq<char>>) -> Option<Seq<char>>
    decreases parts.len(),
{
    if parts.len() == 0 {
        None
    } else if parts.last().len() == 0 || parts.last() == "."@ {
        last_component(parts.drop_last())
    } else {
        Some(parts.last())
    }
}

/// The name of the file that a path denotes; none where it ends in `..` or has
/// no component.
pub open spec fn file_name_of(path: Seq<char>) -> Option<Seq<char>> {
    match last_component(pieces(path, '/')) {
        Some(n) => if n == ".."@ {
            None
        } else {
            Some(n)
        },
        None => None,
    }
}

/// The last position of `c` in `s`, or -1 where there is none.
pub open spec fn last_index(s: Seq<char>, c: char) -> int
    decreases s.len(),
{
    if s.len() == 0 {
        -1
    } else if s.last() == c {
        s.len() - 1
    } else {
        last_index(s.drop_last(), c)
    }
}

/// The name without its extension. A dot at the beginning starts none.
pub open spec fn stem_of(name: Seq<char>) -> Seq<char> {
    let i = last_index(name, '.');
    if i <= 0 {
        name
    } else {
        name.take(i)
    }
}

/// The extension of a name. A dot at the beginning starts none.
pub open spec fn extension_of(name: Seq<char>) -> Option<Seq<char>> {
    let i = last_index(name, '.');
    if i <= 0 {
        None
    } else {
        Some(name.skip(i + 1))
    }
}

/// The file name of a path without its extension.
pub open spec fn file_stem_of(path: Seq<char>) -> Option<Seq<char>> {
    match file_name_of(path) {
        Some(n) => Some(stem_of(n)),
        None => None,
    }
}

/// The extension of the file that a path denotes.
pub open spec fn path_extension(path: Seq<char>) -> Option<Seq<char>> {
    match file_name_of(path) {
        Some(n) => extension_of(n),
        None => None,
    }
}

/// The name of the file that a path denotes.
pub fn file_name(path: &str) -> (r: Option<String>)
    ensures
        opt_text(r) == file_name_of(path@),
{
    let parts = split(path, '/');
    let mut i: usize = parts.len();
    assert(texts(parts@).take(i as int) =~= texts(parts@));
    while i > 0
        invariant
            i <= parts@.len(),
            texts(parts@) == pieces(path@, '/'),
            last_component(pieces(path@, '/')) == last_component(texts(parts@).take(i as int)),
        decreases i,
    {
        let part = parts[i - 1].as_str();
        assert(texts(parts@).take(i as int).last() == part@);
        assert(texts(parts@).take(i as int).drop_last() =~= texts(parts@).take(i - 1));
        if !part.is_empty() && !same(part, ".") {
            return if same(part, "..") {
                None
            } else {
                Some(parts[i - 1].clone())
            };
        }
        i = i - 1;
    }
    None
}

/// The position after the last `c` in `v`, or 0 where there is none.
fn after_last(v: &Vec<char>, c: char) -> (r: usize)
    ensures
        r == last_index(v@, c) + 1,
        r <= v@.len(),
{
    let mut i: usize = v.len();
    assert(v@.take(i as int) =~= v@);
    while i > 0
        invariant
            i <= v@.len(),
            last_index(v@, c) == last_index(v@.take(i as int), c),
        decreases i,
    {
        assert(v@.take(i as int).last() == v@[i - 1]);
        assert(v@.take(i as int).drop_last() =~= v@.take(i - 1));
        if v[i - 1] == c {
            return i;
        }
        i = i - 1;
    }
    0
}

/// The file name of a path without its extension.
pub fn file_stem(path: &str) -> (r: Option<String>)
    ensures
        opt_text(r) == file_stem_of(path@),
{
    match file_name(path) {
        Some(n) => Some(name_stem(n.as_str())),
        None => None,
    }
}

/// The extension of the file that a path denotes.
pub fn extension(path: &str) -> (r: Option<String>)
    ensures
        opt_text(r) == path_extension(path@),
{
    match file_name(path) {
        Some(n) => {
            let v = chars_of(n.as_str());
            let k: usize = after_last(&v, '.');
            if k <= 1 {
                None
            } else {
                let s = string_of(&v, k, v.len());
                assert(s@ =~= v@.skip(k as int));
                Some(s)
            }
        },
        None => None,
    }
}

/// Whether the `i`-th of the parts between the slashes of a path is one of its
/// components: it is not empty, and no single dot unless it comes first.
pub open spec fn is_component(parts: Seq<Seq<char>>, i: int) -> bool {
    parts[i].len() > 0 && (parts[i] != "."@ || i == 0)
}

/// The position of the last component, or -1 where there is none.
pub open spec fn component_index(parts: Seq<Seq<char>>) -> int
    decreases parts.len(),
{
    if parts.len() == 0 {
        -1
    } else if is_component(parts, parts.len() - 1) {
        parts.len() - 1
    } else {
        component_index(parts.drop_last())
    }
}

/// The path of the directory in which a path stands; none for the root and for
/// the empty path.
pub open spec fn parent_of(path: Seq<char>) -> Option<Seq<char>> {
    let parts = pieces(path, '/');
    let last = component_index(parts);
    let above = component_index(parts.take(last));
    if last < 0 {
        None
    } else if above >= 0 {
        Some(joined(parts.take(above + 1), "/"@))
    } else if has_prefix(path, "/"@) {
        Some("/"@)
    } else {
        Some(Seq::empty())
    }
}

/// The path with another extension of the file name; the path itself where it
/// has no file name.
pub open spec fn path_with_extension(path: Seq<char>, ext: Seq<char>) -> Seq<char> {
    let parts = pieces(path, '/');
    let last = component_index(parts);
    if last < 0 || parts[last] == "."@ || parts[last] == ".."@ {
        path
    } else {
        joined(
            parts.take(last).push(
                if ext.len() == 0 {
                    stem_of(parts[last])
                } else {
                    stem_of(parts[last]) + "."@ + ext
                },
            ),
            "/"@,
        )
    }
}

/// The position behind the last component among the first `n` parts, or 0
/// where there is none.
fn after_component(parts: &Vec<String>, n: usize) -> (r: usize)
    requires
        n <= parts@.len(),
    ensures
        r == component_index(texts(parts@).take(n as int)) + 1,
        r <= n,
{
    let mut i: usize = n;
    while i > 0
        invariant
            i <= n <= parts@.len(),
            component_index(texts(parts@).take(n as int)) == component_index(
                texts(parts@).take(i as int),
            ),
        decreases i,
    {
        let ghost front = texts(parts@).take(i as int);
        let part = parts[i - 1].as_str();
        assert(front[i - 1] == part@);
        assert(front.drop_last() =~= texts(parts@).take(i - 1));
        if !part.is_empty() && (i == 1 || !same(part, ".")) {
            return i;
        }
        i = i - 1;
    }
    0
}

/// The path of the directory in which a path stands.
pub fn parent(path: &str) -> (r: Option<String>)
    ensures
        opt_text(r) == parent_of(path@),
{
    let mut parts = split(path, '/');
    let ghost all = texts(parts@);
    let n: usize = parts.len();
    assert(all.take(n as int) =~= all);
    let last: usize = after_component(&parts, n);
    if last == 0 {
        return None;
    }
    let above: usize = after_component(&parts, last - 1);
    if above > 0 {
        parts.truncate(above);
        assert(texts(parts@) =~= all.take(above as int));
        Some(join(&parts, "/"))
    } else if starts_with(path, "/") {
        Some("/".to_owned())
    } else {
        let r = String::new();
        assert(r@ =~= Seq::<char>::empty());
        Some(r)
    }
}

/// A file name without its extension.
fn name_stem(name: &str) -> (r: String)
    ensures
        r@ == stem_of(name@),
{
    let v = chars_of(name);
    let k: usize = after_last(&v, '.');
    if k <= 1 {
        name.to_owned()
    } else {
        let s = string_of(&v, 0, k - 1);
        assert(s@ =~= v@.take(k - 1));
        s
    }
}

/// The path with another extension of the file name.
pub fn with_extension(path: &str, ext: &str) -> (r: String)
    ensures
        r@ == path_with_extension(path@, ext@),
{
    let mut parts = split(path, '/');
    let ghost all = texts(parts@);
    let n: usize = parts.len();
    assert(all.take(n as int) =~= all);
    let last: usize = after_component(&parts, n);
    if last == 0 {
        return path.to_owned();
    }
    let name = parts[last - 1].clone();
    assert(all[last - 1] == name@);
    if same(name.as_str(), ".") || same(name.as_str(), "..") {
        return path.to_owned();
    }
    let stem = name_stem(name.as_str());
    let next = if ext.is_empty() {
        stem
    } else {
        cat3(stem.as_str(), ".", ext)
    };
    parts.truncate(last - 1);
    assert(texts(parts@) =~= all.take(last - 1));
    let ghost front = parts@;
    parts.push(next);
    assert(texts(parts@) =~= texts(front).push(next@));
    join(&parts, "/")
}

/// A name is put below a directory with one slash between them; an absolute
/// path stands for itself.
pub proof fn law_names_are_put_below(dir: Seq<char>, name: Seq<char>)
    requires
        dir.len() > 0,
    ensures
        dir.last() != '/' && (name.len() == 0 || name[0] != '/') ==> path_join(dir, name) == dir
            + seq!['/'] + name,
        dir.last() == '/' && (name.len() == 0 || name[0] != '/') ==> path_join(dir, name) == dir
            + name,
        name.len() > 0 && name[0] == '/' ==> path_join(dir, name) == name,
{
    reveal_strlit("/");
    assert("/"@ =~= seq!['/']);
    let t = dir.skip(dir.len() - 1);
    assert(t.len() == 1 && t[0] == dir.last());
    if dir.last() == '/' {
        assert(t =~= "/"@);
    }
    if name.len() > 0 {
        assert(name.take(1)[0] == name[0]);
        if name[0] == '/' {
            assert(name.take(1) =~= "/"@);
        }
    }
}

proof fn lemma_last_index_is(s: Seq<char>, c: char, k: int)
    requires
        0 <= k < s.len(),
        s[k] == c,
        forall|i: int| k < i < s.len() ==> s[i] != c,
    ensures
        last_index(s, c) == k,
    decreases s.len(),
{
    if k < s.len() - 1 {
        assert(s[s.len() - 1] != c);
        assert forall|i: int| k < i < s.drop_last().len() implies s.drop_last()[i] != c by {
            assert(s.drop_last()[i] == s[i]);
        }
        lemma_last_index_is(s.drop_last(), c, k);
    }
}

/// A file name is its stem, a point and its extension, which holds no point.
pub proof fn law_names_have_stem_and_extension(stem: Seq<char>, ext: Seq<char>)
    requires
        stem.len() > 0,
        !ext.contains('.'),
    ensures
        stem_of(stem + seq!['.'] + ext) == stem,
        extension_of(stem + seq!['.'] + ext) == Some(ext),
{
    let s = stem + seq!['.'] + ext;
    let k = stem.len() as int;
    assert(s[k] == '.');
    assert forall|i: int| k < i < s.len() implies s[i] != '.' by {
        assert(s[i] == ext[i - k - 1]);
        assert(ext.contains(ext[i - k - 1]));
    }
    lemma_last_index_is(s, '.', k);
    assert(s.take(k) =~= stem);
    assert(s.skip(k + 1) =~= ext);
}

/// The name of a file is what follows the last slash of its path.
pub proof fn law_file_name_follows_the_last_slash(dir: Seq<char>, name: Seq<char>)
    requires
        name.len() > 0,
        !name.contains('/'),
        name != "."@,
        name != ".."@,
    ensures
        file_name_of(dir + seq!['/'] + name) == Some(name),
        file_name_of(name) == Some(name),
{
    assert forall|i: int| 0 <= i < name.len() implies name[i] != '/' by {
        assert(name.contains(name[i]));
    }
    lemma_first_index_is(name, '/', name.len() as int);
    assert(pieces(name, '/') =~= seq![name]);
    lemma_last_piece(dir, name);
    let p = pieces(dir + seq!['/'] + name, '/');
    assert(p.last() == name);
}

proof fn lemma_last_piece(dir: Seq<char>, name: Seq<char>)
    requires
        pieces(name, '/') == seq![name],
    ensures
        pieces(dir + seq!['/'] + name, '/').len() > 0,
        pieces(dir + seq!['/'] + name, '/').last() == name,
    decreases dir.len(),
{
    let s = dir + seq!['/'] + name;
    let i = first_index(dir, '/') as int;
    lemma_first_index_bounds(dir, '/');
    assert(s[dir.len() as int] == '/');
    assert forall|j: int| 0 <= j < i implies s[j] != '/' by {
        assert(s[j] == dir[j]);
    }
    if i < dir.len() {
        assert(s[i] == dir[i]);
        lemma_first_index_is(s, '/', i);
        assert(s.skip(i + 1) =~= dir.skip(i + 1) + seq!['/'] + name);
        lemma_last_piece(dir.skip(i + 1), name);
        assert(pieces(s, '/').last() == pieces(s.skip(i + 1), '/').last());
    } else {
        lemma_first_index_is(s, '/', dir.len() as int);
        assert(s.skip(dir.len() as int + 1) =~= name);
        assert(pieces(s, '/').last() == pieces(name, '/').last());
    }
}

proof fn lemma_pieces_push(dir: Seq<char>, name: Seq<char>)
    requires
        !name.contains('/'),
    ensures
        pieces(dir + seq!['/'] + name, '/') == pieces(dir, '/').push(name),
    decreases dir.len(),
{
    let s = dir + seq!['/'] + name;
    let i = first_index(dir, '/') as int;
    lemma_first_index_bounds(dir, '/');
    assert(s[dir.len() as int] == '/');
    assert forall|j: int| 0 <= j < i implies s[j] != '/' by {
        assert(s[j] == dir[j]);
    }
    if i < dir.len() {
        assert(s[i] == dir[i]);
        lemma_first_index_is(s, '/', i);
        assert(s.take(i) =~= dir.take(i));
        assert(s.skip(i + 1) =~= dir.skip(i + 1) + seq!['/'] + name);
        lemma_pieces_push(dir.skip(i + 1), name);
        assert(pieces(s, '/') =~= pieces(dir, '/').push(name));
    } else {
        lemma_first_index_is(s, '/', dir.len() as int);
        assert(s.take(dir.len() as int) =~= dir);
        assert(s.skip(dir.len() as int + 1) =~= name);
        assert forall|j: int| 0 <= j < name.len() implies name[j] != '/' by {
            assert(name.contains(name[j]));
        }
        lemma_first_index_is(name, '/', name.len() as int);
        assert(pieces(name, '/') == seq![name]);
        assert(pieces(dir, '/') == seq![dir]);
        assert(pieces(s, '/') == seq![dir] + pieces(name, '/'));
        assert(pieces(s, '/') =~= pieces(dir, '/').push(name));
    }
}

/// The directory of a file is what precedes the last slash of its path.
pub proof fn law_parent_precedes_the_last_slash(dir: Seq<char>, name: Seq<char>)
    requires
        name.len() > 0,
        name != "."@,
        !name.contains('/'),
        pieces(dir, '/').last().len() > 0,
        pieces(dir, '/').last() != "."@,
    ensures
        parent_of(dir + seq!['/'] + name) == Some(dir),
{
    reveal_strlit("/");
    assert("/"@ =~= seq!['/']);
    law_pieces_make_up_the_text(dir, '/');
    lemma_pieces_push(dir, name);
    let above = pieces(dir, '/');
    let parts = above.push(name);
    assert(is_component(parts, parts.len() - 1));
    assert(parts.take(parts.len() - 1) =~= above);
    assert(is_component(above, above.len() - 1));
    assert(parts.take(above.len() as int) =~= above);
}

/// Another extension takes the place of the one that a file has, and the
/// directory and the stem stay.
pub proof fn law_extensions_are_replaced(
    dir: Seq<char>,
    stem: Seq<char>,
    old_ext: Seq<char>,
    ext: Seq<char>,
)
    requires
        stem.len() > 0,
        stem != "."@,
        ext.len() > 0,
        !old_ext.contains('.'),
        !old_ext.contains('/'),
        old_ext.len() > 0,
        !stem.contains('/'),
    ensures
        path_with_extension(dir + seq!['/'] + (stem + seq!['.'] + old_ext), ext) == dir + seq!['/']
            + (stem + seq!['.'] + ext),
{
    reveal_strlit("/");
    reveal_strlit(".");
    reveal_strlit("..");
    assert("/"@ =~= seq!['/']);
    assert("."@ =~= seq!['.']);
    let name = stem + seq!['.'] + old_ext;
    assert(name.len() >= 3);
    assert("."@.len() == 1 && ".."@.len() == 2);
    assert forall|i: int| 0 <= i < name.len() implies name[i] != '/' by {
        if i < stem.len() {
            assert(stem.contains(stem[i]));
        } else if i > stem.len() {
            assert(name[i] == old_ext[i - stem.len() - 1]);
            assert(old_ext.contains(old_ext[i - stem.len() - 1]));
        }
    }
    assert(!name.contains('/'));
    law_names_have_stem_and_extension(stem, old_ext);
    law_pieces_make_up_the_text(dir, '/');
    lemma_pieces_push(dir, name);
    let above = pieces(dir, '/');
    let parts = above.push(name);
    assert(is_component(parts, parts.len() - 1));
    assert(parts.take(parts.len() - 1) =~= above);
    let new = stem + "."@ + ext;
    lemma_joined_push(above, "/"@, new);
    assert(stem + seq!['.'] + ext =~= new);
}

/// A name that only begins with a point is all stem.
pub proof fn law_hidden_names_are_all_stem(name: Seq<char>)
    requires
        !name.contains('.'),
    ensures
        stem_of(seq!['.'] + name) == seq!['.'] + name,
        stem_of(name) == name,
{
    lemma_no_last_index(name);
    lemma_leading_point(name);
}

proof fn lemma_no_last_index(name: Seq<char>)
    requires
        !name.contains('.'),
    ensures
        last_index(name, '.') <= 0,
    decreases name.len(),
{
    if name.len() > 0 {
        assert(name.contains(name.last()));
        assert forall|c: char| name.drop_last().contains(c) implies name.contains(c) by {
            let i = choose|i: int| 0 <= i < name.drop_last().len() && name.drop_last()[i] == c;
            assert(name[i] == c);
        }
        lemma_no_last_index(name.drop_last());
    }
}

proof fn lemma_leading_point(name: Seq<char>)
    requires
        !name.contains('.'),
    ensures
        last_index(seq!['.'] + name, '.') == 0,
    decreases name.len(),
{
    let s = seq!['.'] + name;
    if name.len() > 0 {
        assert(name.contains(name.last()));
        assert(s.last() == name.last());
        assert(s.drop_last() =~= seq!['.'] + name.drop_last());
        assert forall|c: char| name.drop_last().contains(c) implies name.contains(c) by {
            let i = choose|i: int| 0 <= i < name.drop_last().len() && name.drop_last()[i] == c;
            assert(name[i] == c);
        }
        lemma_leading_point(name.drop_last());
    } else {
        assert(s.last() == '.');
    }
}

} // verus!

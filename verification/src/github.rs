//! Parsing of the GitHub repository reference a user types in.
use vstd::prelude::*;

use crate::error::ApiError;
use crate::text::{
    chars_of, contains_char, has_prefix, has_suffix, is_ascii_alnum, is_ws, lemma_missing_char_no_affix,
    lemma_split_at_sep, lemma_split_extend, lemma_split_keeps_closed_pieces, lemma_split_nonempty,
    lemma_split_whole, seqs_of, split_chars, split_seq, string_of, strip_prefix_chars,
    strip_prefix_seq, trim_chars, trim_end_matches_chars, trim_end_matches_seq, trim_end_seq,
    trim_seq, trim_start_seq, Sep,
};

verus! {

/// The pieces whose trimmed text is not empty.
pub open spec fn blank_free(p: Seq<Seq<char>>) -> Seq<Seq<char>>
    decreases p.len(),
{
    if p.len() == 0 {
        Seq::empty()
    } else {
        let prev = blank_free(p.drop_last());
        if trim_seq(p.last()).len() == 0 {
            prev
        } else {
            prev.push(p.last())
        }
    }
}

/// The input with surrounding whitespace and trailing slashes removed.
pub open spec fn repo_input_trimmed(input: Seq<char>) -> Seq<char> {
    trim_end_matches_seq(trim_seq(input), seq!['/'])
}

/// The input after dropping a `https://github.com/`, `http://github.com/` or
/// `github.com/` prefix.
pub open spec fn without_github_prefix(t: Seq<char>) -> Seq<char> {
    match strip_prefix_seq(t, "https://github.com/"@) {
        Some(x) => x,
        None => match strip_prefix_seq(t, "http://github.com/"@) {
            Some(x) => x,
            None => match strip_prefix_seq(t, "github.com/"@) {
                Some(x) => x,
                None => t,
            },
        },
    }
}

/// The `owner/name` part of a trimmed input: prefix dropped, query and
/// fragment dropped, trailing `.git` suffixes dropped.
pub open spec fn repo_candidate(t: Seq<char>) -> Seq<char> {
    trim_end_matches_seq(split_seq(without_github_prefix(t), Sep::Either('?', '#'))[0], ".git"@)
}

/// What `parse_github_repo_input` returns: the owner and the name, or the
/// message of the bad-request error.
pub open spec fn parse_repo_spec(input: Seq<char>) -> Result<(Seq<char>, Seq<char>), Seq<char>> {
    let t = repo_input_trimmed(input);
    if t.len() == 0 {
        Err("repo is required (GitHub URL or owner/repo)"@)
    } else {
        let parts = blank_free(split_seq(repo_candidate(t), Sep::Char('/')));
        if parts.len() < 2 {
            Err("repo must include owner/repo"@)
        } else if parts.len() > 2 {
            Err("repo must be a GitHub URL or owner/repo"@)
        } else if parts[0].contains(' ') || parts[1].contains(' ') {
            Err("repo must not contain whitespace"@)
        } else {
            Ok((parts[0], parts[1]))
        }
    }
}

/// A character GitHub allows in an owner or repository name: an ASCII
/// letter or digit, `_` or `-`.
pub open spec fn repo_name_char(c: char) -> bool {
    is_ascii_alnum(c) || c == '_' || c == '-'
}

/// A non-empty owner or repository name.
pub open spec fn is_repo_name(s: Seq<char>) -> bool {
    s.len() > 0 && forall|i: int| 0 <= i < s.len() ==> repo_name_char(#[trigger] s[i])
}

/// The plain `owner/name` reference.
pub open spec fn repo_path(owner: Seq<char>, name: Seq<char>) -> Seq<char> {
    owner + seq!['/'] + name
}

spec fn path_char(c: char) -> bool {
    repo_name_char(c) || c == '/'
}

proof fn lemma_trim_plain(s: Seq<char>)
    requires
        s.len() > 0,
        !is_ws(s[0]),
        !is_ws(s.last()),
    ensures
        trim_seq(s) == s,
{
    assert(trim_start_seq(s) == s);
    assert(trim_end_seq(s) == s);
}

proof fn lemma_repo_path_chars(owner: Seq<char>, name: Seq<char>)
    requires
        is_repo_name(owner),
        is_repo_name(name),
    ensures
        forall|i: int|
            0 <= i < repo_path(owner, name).len() ==> path_char(#[trigger] repo_path(owner, name)[i]),
        repo_path(owner, name).len() > 0,
        repo_path(owner, name)[0] == owner[0],
        repo_path(owner, name).last() == name.last(),
        repo_name_char(owner[0]),
        repo_name_char(name.last()),
{
    let p = repo_path(owner, name);
    assert forall|i: int| 0 <= i < p.len() implies path_char(#[trigger] p[i]) by {
        if i < owner.len() {
            assert(p[i] == owner[i]);
        } else if i > owner.len() {
            assert(p[i] == name[i - owner.len() - 1]);
        }
    }
    assert(p[0] == owner[0]);
    assert(p.last() == name[name.len() - 1]);
    assert(repo_name_char(owner[0]));
    assert(repo_name_char(name[name.len() - 1]));
}

/// Splitting `owner/name` at slashes, blank pieces dropped, gives the owner
/// and the name, neither with a space.
proof fn lemma_repo_path_parts(owner: Seq<char>, name: Seq<char>)
    requires
        is_repo_name(owner),
        is_repo_name(name),
    ensures
        blank_free(split_seq(repo_path(owner, name), Sep::Char('/'))) == seq![owner, name],
        !owner.contains(' '),
        !name.contains(' '),
{
    let sep = Sep::Char('/');
    assert forall|i: int| 0 <= i < owner.len() implies !sep.separates(#[trigger] owner[i]) by {
        assert(repo_name_char(owner[i]));
    }
    assert forall|i: int| 0 <= i < name.len() implies !sep.separates(#[trigger] name[i]) by {
        assert(repo_name_char(name[i]));
    }
    lemma_split_whole(owner, sep);
    lemma_split_at_sep(owner, '/', sep);
    assert(owner.push('/') =~= owner + seq!['/']);
    lemma_split_extend(owner + seq!['/'], name, sep);
    assert(Seq::<char>::empty() + name =~= name);
    assert(split_seq(repo_path(owner, name), sep) =~= seq![owner, name]);
    assert(repo_name_char(owner[0]));
    assert(repo_name_char(owner[owner.len() - 1]));
    assert(repo_name_char(name[0]));
    assert(repo_name_char(name[name.len() - 1]));
    lemma_trim_plain(owner);
    lemma_trim_plain(name);
    let ps = seq![owner, name];
    assert(ps.drop_last() =~= seq![owner]);
    assert(seq![owner].drop_last() =~= Seq::<Seq<char>>::empty());
    assert(blank_free(Seq::<Seq<char>>::empty()) =~= Seq::<Seq<char>>::empty());
    assert(seq![owner].last() == owner);
    assert(Seq::<Seq<char>>::empty().push(owner) =~= seq![owner]);
    assert(blank_free(seq![owner]) =~= seq![owner]);
    assert(blank_free(ps) =~= ps);
    assert forall|i: int| 0 <= i < owner.len() implies owner[i] != ' ' by {
        assert(repo_name_char(owner[i]));
    }
    assert forall|i: int| 0 <= i < name.len() implies name[i] != ' ' by {
        assert(repo_name_char(name[i]));
    }
}

/// Text made of name characters and slashes is its own repository candidate
/// once the prefix is gone: it has no query, no fragment and no `.git`.
proof fn lemma_plain_candidate(x: Seq<char>)
    requires
        forall|i: int| 0 <= i < x.len() ==> path_char(#[trigger] x[i]),
    ensures
        trim_end_matches_seq(split_seq(x, Sep::Either('?', '#'))[0], ".git"@) == x,
{
    let sep = Sep::Either('?', '#');
    lemma_split_whole(x, sep);
    reveal_strlit(".git");
    lemma_missing_char_no_affix(x, ".git"@, 0);
}

/// None of the GitHub prefixes starts text made of name characters and
/// slashes.
proof fn lemma_plain_no_prefix(x: Seq<char>)
    requires
        forall|i: int| 0 <= i < x.len() ==> path_char(#[trigger] x[i]),
    ensures
        without_github_prefix(x) == x,
{
    reveal_strlit("https://github.com/");
    reveal_strlit("http://github.com/");
    reveal_strlit("github.com/");
    lemma_missing_char_no_affix(x, "https://github.com/"@, 5);
    lemma_missing_char_no_affix(x, "http://github.com/"@, 4);
    lemma_missing_char_no_affix(x, "github.com/"@, 6);
}

/// An `owner/name` pair round-trips through `parse_github_repo_input`:
/// written plainly, as a GitHub URL with surrounding spaces and a trailing
/// slash, or as a `github.com/` reference with a `.git` suffix and a
/// fragment, it parses back to the same owner and name.
pub proof fn lemma_parse_repo_round_trip(owner: Seq<char>, name: Seq<char>)
    requires
        is_repo_name(owner),
        is_repo_name(name),
    ensures
        parse_repo_spec(owner + "/"@ + name) == Ok::<(Seq<char>, Seq<char>), Seq<char>>(
            (owner, name),
        ),
        parse_repo_spec(" https://github.com/"@ + owner + "/"@ + name + "/ "@) == Ok::<
            (Seq<char>, Seq<char>),
            Seq<char>,
        >((owner, name)),
        parse_repo_spec("github.com/"@ + owner + "/"@ + name + ".git#readme"@) == Ok::<
            (Seq<char>, Seq<char>),
            Seq<char>,
        >((owner, name)),
{
    let path = repo_path(owner, name);
    reveal_strlit("/");
    assert(owner + "/"@ + name =~= path);
    lemma_repo_path_chars(owner, name);
    lemma_repo_path_parts(owner, name);
    lemma_plain_candidate(path);
    let slash = seq!['/'];
    // plain form
    lemma_trim_plain(path);
    assert(path.skip(path.len() - 1)[0] == path.last());
    assert(!has_suffix(path, slash));
    assert(repo_input_trimmed(path) == path);
    lemma_plain_no_prefix(path);
    assert(repo_candidate(path) == path);
    // URL form
    let h = "https://github.com/"@;
    reveal_strlit("https://github.com/");
    reveal_strlit(" https://github.com/");
    reveal_strlit("/ ");
    let url = " https://github.com/"@ + owner + "/"@ + name + "/ "@;
    let y = h + path + "/ "@;
    let z = h + path + slash;
    assert(url.drop_first() =~= y);
    assert(y[0] == 'h');
    assert(trim_start_seq(y) == y);
    assert(trim_start_seq(url) == y);
    assert(y.drop_last() =~= z);
    assert(z.last() == '/');
    assert(trim_end_seq(z) == z);
    assert(trim_end_seq(y) == z);
    assert(trim_seq(url) == z);
    assert(z.skip(z.len() - 1) =~= slash);
    assert(z.take(z.len() - 1) =~= h + path);
    assert((h + path).skip((h + path).len() - 1)[0] == path.last());
    assert(!has_suffix(h + path, slash));
    assert(trim_end_matches_seq(h + path, slash) == h + path);
    assert(repo_input_trimmed(url) == h + path);
    assert((h + path).take(h.len() as int) =~= h);
    assert((h + path).skip(h.len() as int) =~= path);
    assert(without_github_prefix(h + path) == path);
    assert(repo_candidate(h + path) == path);
    // reference form with `.git` and a fragment
    let g = "github.com/"@;
    reveal_strlit("github.com/");
    reveal_strlit(".git#readme");
    reveal_strlit(".git");
    reveal_strlit("readme");
    reveal_strlit("http://github.com/");
    let r = ".git#readme"@;
    let rf = "github.com/"@ + owner + "/"@ + name + ".git#readme"@;
    assert(rf =~= g + path + r);
    assert(rf[0] == 'g');
    assert(rf.last() == 'e');
    lemma_trim_plain(rf);
    assert(rf.skip(rf.len() - 1)[0] == 'e');
    assert(!has_suffix(rf, slash));
    assert(repo_input_trimmed(rf) == rf);
    if has_prefix(rf, h) {
        assert(rf.take(h.len() as int)[0] == rf[0]);
    }
    if has_prefix(rf, "http://github.com/"@) {
        assert(rf.take("http://github.com/"@.len() as int)[0] == rf[0]);
    }
    assert(rf.take(g.len() as int) =~= g);
    let rest = path + r;
    assert(rf.skip(g.len() as int) =~= rest);
    assert(without_github_prefix(rf) == rest);
    let sep = Sep::Either('?', '#');
    let pg = path + ".git"@;
    assert forall|i: int| 0 <= i < pg.len() implies !sep.separates(#[trigger] pg[i]) by {
        if i < path.len() {
            assert(pg[i] == path[i]);
            assert(path_char(path[i]));
        }
    }
    lemma_split_whole(pg, sep);
    lemma_split_at_sep(pg, '#', sep);
    assert(rest =~= pg.push('#') + "readme"@);
    lemma_split_keeps_closed_pieces(pg.push('#'), "readme"@, sep, 0);
    assert(split_seq(rest, sep)[0] == pg);
    assert(pg.skip(pg.len() - 4) =~= ".git"@);
    assert(pg.take(pg.len() - 4) =~= path);
    lemma_missing_char_no_affix(path, ".git"@, 0);
    assert(trim_end_matches_seq(path, ".git"@) == path);
    assert(trim_end_matches_seq(pg, ".git"@) == path);
    assert(repo_candidate(rf) == path);
}

fn blank_free_chunks(p: &Vec<Vec<char>>) -> (r: Vec<Vec<char>>)
    ensures
        seqs_of(r@) == blank_free(seqs_of(p@)),
{
    let mut r: Vec<Vec<char>> = Vec::new();
    let ghost pv = seqs_of(p@);
    for i in 0..p.len()
        invariant
            pv == seqs_of(p@),
            seqs_of(r@) == blank_free(pv.take(i as int)),
    {
        let piece = p[i].clone();
        proof {
            assert(pv.take(i + 1).drop_last() =~= pv.take(i as int));
        }
        let t = trim_chars(piece.as_slice());
        if t.len() > 0 {
            let ghost before = seqs_of(r@);
            r.push(piece);
            assert(seqs_of(r@) =~= before.push(pv[i as int]));
        }
    }
    assert(pv.take(p@.len() as int) =~= pv);
    r
}

/// Parses a GitHub repository reference (`owner/repo` or a GitHub URL) into
/// its owner and name.
pub fn parse_github_repo_input(input: &str) -> (r: Result<(String, String), ApiError>)
    ensures
        match r {
            Ok((owner, name)) => parse_repo_spec(input@) == Ok::<
                (Seq<char>, Seq<char>),
                Seq<char>,
            >((owner@, name@)),
            Err(e) => parse_repo_spec(input@) == Err::<(Seq<char>, Seq<char>), Seq<char>>(
                e.message@,
            ) && e.status == 400,
        },
{
    let v = chars_of(input);
    let trimmed0 = trim_chars(v.as_slice());
    let slash = vec!['/'];
    let trimmed = trim_end_matches_chars(trimmed0.as_slice(), slash.as_slice());
    assert(slash@ =~= seq!['/']);
    if trimmed.len() == 0 {
        return Err(ApiError::bad_request("repo is required (GitHub URL or owner/repo)"));
    }
    let p1 = chars_of("https://github.com/");
    let p2 = chars_of("http://github.com/");
    let p3 = chars_of("github.com/");
    let stripped = match strip_prefix_chars(trimmed.as_slice(), p1.as_slice()) {
        Some(x) => x,
        None => match strip_prefix_chars(trimmed.as_slice(), p2.as_slice()) {
            Some(x) => x,
            None => match strip_prefix_chars(trimmed.as_slice(), p3.as_slice()) {
                Some(x) => x,
                None => trimmed.clone(),
            },
        },
    };
    assert(stripped@ == without_github_prefix(trimmed@));
    let pieces = split_chars(stripped.as_slice(), Sep::Either('?', '#'));
    proof {
        lemma_split_nonempty(stripped@, Sep::Either('?', '#'));
    }
    let first = pieces[0].clone();
    let git = chars_of(".git");
    let candidate = trim_end_matches_chars(first.as_slice(), git.as_slice());
    assert(candidate@ == repo_candidate(trimmed@));
    let segs = split_chars(candidate.as_slice(), Sep::Char('/'));
    let parts = blank_free_chunks(&segs);
    if parts.len() < 2 {
        return Err(ApiError::bad_request("repo must include owner/repo"));
    }
    if parts.len() > 2 {
        return Err(ApiError::bad_request("repo must be a GitHub URL or owner/repo"));
    }
    let owner = parts[0].clone();
    let name = parts[1].clone();
    assert(owner@ == seqs_of(parts@)[0]);
    assert(name@ == seqs_of(parts@)[1]);
    if contains_char(owner.as_slice(), ' ') || contains_char(name.as_slice(), ' ') {
        return Err(ApiError::bad_request("repo must not contain whitespace"));
    }
    Ok((string_of(owner.as_slice()), string_of(name.as_slice())))
}

} // verus!

//! The text a repository is embedded from for semantic search.
use vstd::prelude::*;

use crate::error::ApiError;

use crate::config::AppConfig;
use crate::text::{
    chars_of, join_seq, join_strings, owned, push_str, string_of, strings_to_vec, trim_chars,
    trim_seq,
};

verus! {

/// Semantic search runs only when the configuration enables it.
pub fn enabled(config: &AppConfig) -> (r: bool)
    ensures
        r == config.semantic_search_enabled,
{
    config.semantic_search_enabled
}

pub open spec fn opt_str(o: Option<&str>) -> Option<Seq<char>> {
    match o {
        Some(s) => Some(s@),
        None => None,
    }
}

/// The parts of the document: `owner/name`, the trimmed description when not
/// blank, `language: ` and the trimmed language when not blank, `topics: ` and
/// the topics joined by `, ` when there are topics.
pub open spec fn document_parts(
    owner: Seq<char>,
    name: Seq<char>,
    description: Option<Seq<char>>,
    language: Option<Seq<char>>,
    topics: Seq<Seq<char>>,
) -> Seq<Seq<char>> {
    let p1 = seq![owner + "/"@ + name];
    let p2 = match description {
        Some(d) => if trim_seq(d).len() > 0 {
            p1.push(trim_seq(d))
        } else {
            p1
        },
        None => p1,
    };
    let p3 = match language {
        Some(l) => if trim_seq(l).len() > 0 {
            p2.push("language: "@ + trim_seq(l))
        } else {
            p2
        },
        None => p2,
    };
    if topics.len() > 0 {
        p3.push("topics: "@ + join_seq(topics, ", "@))
    } else {
        p3
    }
}

/// `passage: ` and the parts joined by ` | `.
pub open spec fn search_document_spec(
    owner: Seq<char>,
    name: Seq<char>,
    description: Option<Seq<char>>,
    language: Option<Seq<char>>,
    topics: Seq<Seq<char>>,
) -> Seq<char> {
    "passage: "@ + join_seq(document_parts(owner, name, description, language, topics), " | "@)
}

/// The document embedded for a repository.
pub fn build_search_document(
    owner: &str,
    name: &str,
    description: Option<&str>,
    language: Option<&str>,
    topics: &[String],
) -> (r: String)
    ensures
        r@ == search_document_spec(
            owner@,
            name@,
            opt_str(description),
            opt_str(language),
            topics@.map_values(|t: String| t@),
        ),
{
    let ghost tv = topics@.map_values(|t: String| t@);
    let mut parts: Vec<String> = Vec::new();
    let mut first = String::new();
    push_str(&mut first, owner);
    push_str(&mut first, "/");
    push_str(&mut first, name);
    parts.push(first);
    assert(parts.deep_view() =~= seq![owner@ + "/"@ + name@]);
    if let Some(d) = description {
        let t = trim_chars(chars_of(d).as_slice());
        if t.len() > 0 {
            let ghost before = parts.deep_view();
            let ts = string_of(t.as_slice());
            parts.push(ts);
            assert(parts.deep_view() =~= before.push(trim_seq(d@)));
        }
    }
    if let Some(l) = language {
        let t = trim_chars(chars_of(l).as_slice());
        if t.len() > 0 {
            let ghost before = parts.deep_view();
            let mut s = String::new();
            push_str(&mut s, "language: ");
            let ts = string_of(t.as_slice());
            push_str(&mut s, ts.as_str());
            parts.push(s);
            assert(parts.deep_view() =~= before.push("language: "@ + trim_seq(l@)));
        }
    }
    if topics.len() > 0 {
        let tvec = strings_to_vec(topics);
        assert(tvec.deep_view() =~= tv);
        let joined = join_strings(&tvec, ", ");
        let ghost before = parts.deep_view();
        let mut s = String::new();
        push_str(&mut s, "topics: ");
        push_str(&mut s, joined.as_str());
        parts.push(s);
        assert(parts.deep_view() =~= before.push("topics: "@ + join_seq(tv, ", "@)));
    }
    let joined = join_strings(&parts, " | ");
    let mut r = String::new();
    push_str(&mut r, "passage: ");
    push_str(&mut r, joined.as_str());
    r
}


/// The error reported when computing an embedding failed, given the
/// failure's text.
pub fn embedding_failure(err: &str) -> (r: ApiError)
    ensures
        r.is_internal("semantic embedding failed: "@ + err@),
{
    let mut m = crate::text::owned("semantic embedding failed: ");
    crate::text::push_str(&mut m, err);
    ApiError::internal_owned(m)
}

} // verus!

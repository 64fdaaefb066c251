//! GitHub GraphQL client logic: query texts, response checks, token choice,
//! and the pagination decisions that drive the fetching of Star Lists and
//! starred repositories.

use vstd::prelude::*;
use vstd::utf8::{decode_utf8, valid_utf8};
use crate::text::{chars_of, trim, trimmed, utf8_string};
use crate::types::opt_text;

verus! {

/// The GraphQL endpoint.
pub const GRAPHQL_ENDPOINT: &'static str = "https://api.github.com/graphql";

/// The `after:` argument for a page cursor (empty for the first page).
pub open spec fn cursor_text(cursor: Option<Seq<char>>) -> Seq<char> {
    match cursor {
        Some(c) => ", after: \""@ + c + "\""@,
        None => seq![],
    }
}

/// The `after:` argument for a page cursor (empty for the first page).
pub fn cursor_arg(cursor: &Option<String>) -> (a: String)
    ensures
        a@ == cursor_text(opt_text(*cursor)),
{
    match cursor {
        Some(c) => {
            let mut a = String::from_str(", after: \"");
            a.append(c.as_str());
            a.append("\"");
            a
        },
        None => String::new(),
    }
}

/// The query for one page of the viewer's lists (with the first page of
/// each list's items).
pub open spec fn lists_query(cursor: Option<Seq<char>>) -> Seq<char> {
    "{\n  viewer {\n    lists(first: 100"@ + cursor_text(cursor) + ") {\n      totalCount\n      nodes {\n        id\n        name\n        description\n        isPrivate\n        items(first: 100) {\n          totalCount\n          nodes {\n            ... on Repository {\n              nameWithOwner\n              description\n              url\n              isPrivate\n            }\n          }\n          pageInfo { hasNextPage endCursor }\n        }\n      }\n      pageInfo { hasNextPage endCursor }\n    }\n  }\n}"@
}

/// Builds the query for one page of the viewer's lists.
pub fn build_lists_query(cursor: &Option<String>) -> (q: String)
    ensures
        q@ == lists_query(opt_text(*cursor)),
{
    let after = cursor_arg(cursor);
    let mut q = String::from_str("{\n  viewer {\n    lists(first: 100");
    q.append(after.as_str());
    q.append(") {\n      totalCount\n      nodes {\n        id\n        name\n        description\n        isPrivate\n        items(first: 100) {\n          totalCount\n          nodes {\n            ... on Repository {\n              nameWithOwner\n              description\n              url\n              isPrivate\n            }\n          }\n          pageInfo { hasNextPage endCursor }\n        }\n      }\n      pageInfo { hasNextPage endCursor }\n    }\n  }\n}");
    q
}

/// The query for one page of starred repositories, with metadata.
pub open spec fn starred_query(cursor: Option<Seq<char>>) -> Seq<char> {
    "{\n  viewer {\n    starredRepositories(first: 100"@ + cursor_text(cursor) + ") {\n      nodes {\n        nameWithOwner\n        description\n        url\n        isPrivate\n        stargazerCount\n        primaryLanguage { name }\n        repositoryTopics(first: 10) {\n          nodes { topic { name } }\n        }\n      }\n      pageInfo { hasNextPage endCursor }\n    }\n  }\n}"@
}

/// Builds the query for one page of starred repositories.
pub fn build_starred_query(cursor: &Option<String>) -> (q: String)
    ensures
        q@ == starred_query(opt_text(*cursor)),
{
    let after = cursor_arg(cursor);
    let mut q = String::from_str("{\n  viewer {\n    starredRepositories(first: 100");
    q.append(after.as_str());
    q.append(") {\n      nodes {\n        nameWithOwner\n        description\n        url\n        isPrivate\n        stargazerCount\n        primaryLanguage { name }\n        repositoryTopics(first: 10) {\n          nodes { topic { name } }\n        }\n      }\n      pageInfo { hasNextPage endCursor }\n    }\n  }\n}");
    q
}

/// The query for a further page of one list's items.
pub open spec fn list_items_query(list_id: Seq<char>, cursor: Option<Seq<char>>) -> Seq<char> {
    "{\n  node(id: \""@ + list_id + "\") {\n    ... on UserList {\n      items(first: 100"@ + cursor_text(cursor) + ") {\n        totalCount\n        nodes {\n          ... on Repository {\n            nameWithOwner\n            description\n            url\n            isPrivate\n          }\n        }\n        pageInfo { hasNextPage endCursor }\n      }\n    }\n  }\n}"@
}

/// Builds the query for a further page of one list's items.
pub fn build_list_items_query(list_id: &str, cursor: &Option<String>) -> (q: String)
    ensures
        q@ == list_items_query(list_id@, opt_text(*cursor)),
{
    let after = cursor_arg(cursor);
    let mut q = String::from_str("{\n  node(id: \"");
    q.append(list_id);
    q.append("\") {\n    ... on UserList {\n      items(first: 100");
    q.append(after.as_str());
    q.append(") {\n        totalCount\n        nodes {\n          ... on Repository {\n            nameWithOwner\n            description\n            url\n            isPrivate\n          }\n        }\n        pageInfo { hasNextPage endCursor }\n      }\n    }\n  }\n}");
    q
}


/// Why a GraphQL response carries no usable data.
#[derive(Debug, PartialEq, Eq)]
pub enum GraphqlFailure {
    /// The HTTP status was not a success (2xx).
    Status(u16),
    /// The response has an `errors` field.
    Errors,
    /// The response has no `data` field.
    NoData,
}

/// The outcome of a GraphQL response with HTTP `status` whose body has (or
/// lacks) `errors` and `data` fields.
pub open spec fn graphql_outcome(status: u16, has_errors: bool, has_data: bool) -> Result<(), GraphqlFailure> {
    if !(200 <= status < 300) {
        Err(GraphqlFailure::Status(status))
    } else if has_errors {
        Err(GraphqlFailure::Errors)
    } else if !has_data {
        Err(GraphqlFailure::NoData)
    } else {
        Ok(())
    }
}

/// Checks a GraphQL response: a non-success status, an `errors` field, or a
/// missing `data` field (checked in that order) make it unusable.
pub fn check_graphql_response(status: u16, has_errors: bool, has_data: bool) -> (r: Result<(), GraphqlFailure>)
    ensures
        r == graphql_outcome(status, has_errors, has_data),
{
    if !(200 <= status && status < 300) {
        Err(GraphqlFailure::Status(status))
    } else if has_errors {
        Err(GraphqlFailure::Errors)
    } else if !has_data {
        Err(GraphqlFailure::NoData)
    } else {
        Ok(())
    }
}

/// Why no GitHub token could be had.
#[derive(Debug, PartialEq, Eq)]
pub enum TokenError {
    /// `gh auth token` printed something that is not UTF-8.
    NotUtf8,
    /// Neither `GITHUB_TOKEN` nor `gh auth token` gave a token.
    NotFound,
}

/// The token chosen from the `GITHUB_TOKEN` value (when set and valid
/// Unicode) and the output of a successful `gh auth token` run.
pub open spec fn token_choice(env: Option<Seq<char>>, gh_stdout: Option<Seq<u8>>) -> Result<Seq<char>, TokenError> {
    if env is Some && env->Some_0.len() > 0 {
        Ok(env->Some_0)
    } else {
        match gh_stdout {
            Some(bytes) => if !valid_utf8(bytes) {
                Err(TokenError::NotUtf8)
            } else if trim(decode_utf8(bytes)).len() > 0 {
                Ok(trim(decode_utf8(bytes)))
            } else {
                Err(TokenError::NotFound)
            },
            None => Err(TokenError::NotFound),
        }
    }
}

/// Chooses the GitHub token: a nonempty `GITHUB_TOKEN` first, else the
/// trimmed output of a successful `gh auth token` (`gh_stdout`, `None` when
/// the command failed).
pub fn select_token(env_token: Option<String>, gh_stdout: Option<Vec<u8>>) -> (r: Result<String, TokenError>)
    ensures
        match r {
            Ok(t) => token_choice(opt_text(env_token), match gh_stdout {
                Some(v) => Some(v@),
                None => None,
            }) == Ok::<Seq<char>, TokenError>(t@),
            Err(e) => token_choice(opt_text(env_token), match gh_stdout {
                Some(v) => Some(v@),
                None => None,
            }) == Err::<Seq<char>, TokenError>(e),
        },
{
    if let Some(t) = env_token {
        if !t.as_str().is_empty() {
            return Ok(t);
        }
    }
    match gh_stdout {
        Some(bytes) => match utf8_string(bytes) {
            Some(s) => {
                let t = trimmed(s.as_str());
                if t.as_str().is_empty() {
                    Err(TokenError::NotFound)
                } else {
                    Ok(t)
                }
            },
            None => Err(TokenError::NotUtf8),
        },
        None => Err(TokenError::NotFound),
    }
}

/// The title of the llms documents for a viewer login: `<login> stars`.
pub fn stars_title(login: &str) -> (t: String)
    ensures
        t@ == login@ + " stars"@,
{
    let mut t = String::from_str(login);
    t.append(" stars");
    t
}

/// The position of the first `/` in `s`, if any.
pub open spec fn first_slash(s: Seq<char>) -> Option<int>
    decreases s.len(),
{
    if s.len() == 0 {
        None
    } else {
        match first_slash(s.drop_last()) {
            Some(i) => Some(i),
            None => if s.last() == '/' { Some(s.len() - 1) } else { None },
        }
    }
}

/// `s` split at its first `/` (`str::split_once('/')`).
pub open spec fn owner_and_name(s: Seq<char>) -> Option<(Seq<char>, Seq<char>)> {
    match first_slash(s) {
        Some(i) => Some((s.take(i), s.skip(i + 1))),
        None => None,
    }
}

/// Splits `owner/name` at the first `/`; `None` when there is no `/`.
pub fn split_owner_name(s: &str) -> (r: Option<(&str, &str)>)
    ensures
        match r {
            Some((o, n)) => owner_and_name(s@) == Some((o@, n@)),
            None => owner_and_name(s@) is None,
        },
{
    let cs = chars_of(s);
    let n = cs.len();
    let mut i: usize = 0;
    assert(cs@.take(0) =~= Seq::<char>::empty());
    while i < n
        invariant
            i <= n == cs.len(),
            cs@ == s@,
            first_slash(cs@.take(i as int)) is None,
        decreases n - i,
    {
        assert(cs@.take(i + 1).drop_last() =~= cs@.take(i as int));
        if cs[i] == '/' {
            proof {
                lemma_first_slash_prefix(cs@, i as int);
            }
            return Some((s.substring_char(0, i), s.substring_char(i + 1, n)));
        }
        i += 1;
    }
    assert(cs@.take(n as int) =~= cs@);
    None
}

proof fn lemma_first_slash_prefix(s: Seq<char>, i: int)
    requires
        0 <= i < s.len(),
        s[i] == '/',
        first_slash(s.take(i)) is None,
    ensures
        first_slash(s) == Some(i),
    decreases s.len(),
{
    assert(s.take(i + 1).drop_last() =~= s.take(i));
    if s.len() > i + 1 {
        assert(s.drop_last().take(i) =~= s.take(i));
        lemma_first_slash_prefix(s.drop_last(), i);
    } else {
        assert(s.take(i + 1) =~= s);
    }
}


/// The file that `push` writes in the target repository.
pub const README_PATH: &'static str = "README.md";

/// The commit message of `push`.
pub const COMMIT_MESSAGE: &'static str = "docs: update awesome list via starmap";

/// How `push` writes the Awesome List.
#[derive(Debug, PartialEq, Eq)]
pub enum PushPlan {
    /// The file does not exist yet: create it.
    Create,
    /// The file exists: update it, naming the current blob SHA.
    Update { sha: String },
}

/// `push` cannot proceed.
#[derive(Debug, PartialEq, Eq)]
pub enum PushError {
    /// The contents lookup succeeded but listed no file.
    EmptyContent,
}

/// Decides how to write the file from the contents lookup: `None` when the
/// lookup failed (no such file), else the SHA of the first item listed.
pub fn plan_push(lookup: Option<Option<String>>) -> (r: Result<PushPlan, PushError>)
    ensures
        match lookup {
            None => r == Ok::<PushPlan, PushError>(PushPlan::Create),
            Some(None) => r == Err::<PushPlan, PushError>(PushError::EmptyContent),
            Some(Some(sha)) => r == Ok::<PushPlan, PushError>(PushPlan::Update { sha }),
        },
{
    match lookup {
        None => Ok(PushPlan::Create),
        Some(None) => Err(PushError::EmptyContent),
        Some(Some(sha)) => Ok(PushPlan::Update { sha }),
    }
}

} // verus!

use vstd::prelude::*;
use vstd::string::StringExecFns;
use vstd::string::StringSliceAdditionalSpecFns;
use vstd::utf8::*;

use crate::text::{bytes_of, has_prefix, is_decode_error, lines, read_file_content, split_lines, FileError};

verus! {

broadcast use vstd::utf8::encode_utf8_decode_utf8;

#[verifier::external_type_specification]
#[verifier::external_body]
pub struct ExRegex(regex::Regex);

/// Whether `regex::Regex::new` accepts the pattern `p`.
pub uninterp spec fn pattern_compiles(p: Seq<char>) -> bool;

/// Whether the regex compiled from `p` matches somewhere in `line`.
pub uninterp spec fn pattern_matches(p: Seq<char>, line: Seq<char>) -> bool;

/// A compiled regular expression together with the pattern it was built from.
/// Only [`Pattern::compile`] builds one, so `re` is always `source` compiled.
pub struct Pattern {
    re: regex::Regex,
    source: String,
}

impl Pattern {
    /// The pattern text this regex was compiled from.
    pub closed spec fn source(&self) -> Seq<char> {
        self.source@
    }

    /// Relies on `regex::Regex::new`: compiles `p` or reports why it cannot.
    #[verifier::external_body]
    pub fn compile(p: &str) -> (r: Result<Pattern, String>)
        ensures
            r is Ok <==> pattern_compiles(p@),
            r is Ok ==> r->Ok_0.source() == p@,
    {
        match regex::Regex::new(p) {
            Ok(re) => Ok(Pattern { re, source: p.to_string() }),
            Err(e) => Err(e.to_string()),
        }
    }

    /// Relies on `regex::Regex::is_match`: an unanchored, case-sensitive search.
    #[verifier::external_body]
    pub fn is_match(&self, line: &str) -> (r: bool)
        ensures
            r == pattern_matches(self.source(), line@),
    {
        self.re.is_match(line)
    }
}

/// One matching line: its 1-indexed number and its text.
#[derive(Debug, PartialEq, Eq)]
pub struct SearchMatch {
    pub line: usize,
    pub content: String,
}

/// The logical lines of the text `s`, as characters.
pub open spec fn text_lines(s: Seq<char>) -> Seq<Seq<char>> {
    lines(encode_utf8(s)).map_values(|l: Seq<u8>| decode_utf8(l))
}

/// The (1-indexed number, text) pairs of the lines of `ls` that `p` matches, in order.
pub open spec fn matching_lines(ls: Seq<Seq<char>>, p: Seq<char>) -> Seq<(int, Seq<char>)>
    decreases ls.len(),
{
    if ls.len() == 0 {
        Seq::empty()
    } else {
        let prev = matching_lines(ls.drop_last(), p);
        if pattern_matches(p, ls.last()) {
            prev.push((ls.len() as int, ls.last()))
        } else {
            prev
        }
    }
}

/// Line numbers and texts of a sequence of matches.
pub open spec fn match_views(v: Seq<SearchMatch>) -> Seq<(int, Seq<char>)> {
    v.map_values(|m: SearchMatch| (m.line as int, m.content@))
}

/// A pattern that matches no line yields no matches.
pub proof fn lemma_no_match_is_empty(ls: Seq<Seq<char>>, p: Seq<char>)
    requires
        forall|i: int| 0 <= i < ls.len() ==> !pattern_matches(p, #[trigger] ls[i]),
    ensures
        matching_lines(ls, p) == Seq::<(int, Seq<char>)>::empty(),
    decreases ls.len(),
{
    if ls.len() > 0 {
        assert forall|i: int| 0 <= i < ls.drop_last().len() implies !pattern_matches(p, #[trigger] ls.drop_last()[i]) by {
            assert(ls.drop_last()[i] == ls[i]);
        }
        lemma_no_match_is_empty(ls.drop_last(), p);
    }
}

/// Whether `e` is the error for a pattern that does not compile: a
/// `RegexError` whose description begins `Invalid regex: `.
pub open spec fn is_regex_error(e: FileError) -> bool {
    e is RegexError && has_prefix(e->RegexError_0@, "Invalid regex: "@)
}

/// The lines of `content` that `pattern` matches, in file order. An empty
/// result means no line matched; a pattern that does not compile is an error.
pub fn search_lines(content: &str, pattern: &str) -> (r: Result<Vec<SearchMatch>, FileError>)
    ensures
        r is Ok <==> pattern_compiles(pattern@),
        r is Err ==> is_regex_error(r->Err_0),
        r is Ok ==> match_views(r->Ok_0@) == matching_lines(text_lines(content@), pattern@),
{
    let re = match Pattern::compile(pattern) {
        Ok(re) => re,
        Err(e) => {
            let msg = String::from_str("Invalid regex: ").concat(e.as_str());
            proof {
                reveal_strlit("Invalid regex: ");
                assert(msg@.subrange(0, 15) =~= "Invalid regex: "@);
            }
            return Err(FileError::RegexError(msg));
        },
    };
    let ls = split_lines(content);
    let ghost all = text_lines(content@);
    proof {
        assert(content.spec_bytes() == encode_utf8(content@));
        assert forall|k: int| 0 <= k < ls@.len() implies #[trigger] ls@[k]@ == all[k] by {
            assert(bytes_of(ls@)[k] == ls@[k].spec_bytes());
        }
    }
    let mut out: Vec<SearchMatch> = Vec::new();
    let mut i: usize = 0;
    while i < ls.len()
        invariant
            all.len() == ls@.len(),
            forall|k: int| 0 <= k < ls@.len() ==> #[trigger] ls@[k]@ == all[k],
            re.source() == pattern@,
            i <= ls@.len(),
            match_views(out@) == matching_lines(all.subrange(0, i as int), pattern@),
        decreases ls@.len() - i,
    {
        let ghost before = out@;
        proof {
            assert(all.subrange(0, i as int + 1).drop_last() =~= all.subrange(0, i as int));
        }
        if re.is_match(ls[i]) {
            out.push(SearchMatch { line: i + 1, content: String::from_str(ls[i]) });
            proof {
                assert(match_views(out@) =~= match_views(before).push((i as int + 1, all[i as int])));
            }
        }
        i = i + 1;
    }
    proof {
        assert(all.subrange(0, ls@.len() as int) =~= all);
    }
    Ok(out)
}

/// Searches the file bytes `data`, which must be UTF-8 text, for lines that
/// `pattern` matches. Decoding is checked before the pattern.
pub fn search_in_file(data: Vec<u8>, pattern: &str) -> (r: Result<Vec<SearchMatch>, FileError>)
    ensures
        !valid_utf8(data@) ==> r is Err && is_decode_error(r->Err_0),
        valid_utf8(data@) ==> (r is Ok <==> pattern_compiles(pattern@)),
        valid_utf8(data@) && r is Err ==> is_regex_error(r->Err_0),
        r is Ok ==> match_views(r->Ok_0@) == matching_lines(text_lines(decode_utf8(data@)), pattern@),
{
    let content = read_file_content(data)?;
    search_lines(content.as_str(), pattern)
}

} // verus!

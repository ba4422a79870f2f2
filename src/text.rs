use vstd::prelude::*;
use vstd::string::StringExecFns;
use vstd::string::StringSliceAdditionalSpecFns;
use vstd::utf8::*;

verus! {

broadcast use vstd::utf8::encode_utf8_valid_utf8;

/// The line terminator byte.
pub const NEWLINE: u8 = 10;

/// Number of bytes of `b` equal to `x`.
pub open spec fn occurrences(b: Seq<u8>, x: u8) -> nat
    decreases b.len(),
{
    if b.len() == 0 {
        0
    } else {
        occurrences(b.drop_last(), x) + if b.last() == x { 1nat } else { 0nat }
    }
}

/// Number of `'\n'` bytes in `b`.
pub open spec fn newline_count(b: Seq<u8>) -> nat {
    occurrences(b, NEWLINE)
}

/// Number of lines in `b`: one per `'\n'`, plus one for a final line that
/// has no terminator.
pub open spec fn line_count(b: Seq<u8>) -> nat {
    if b.len() == 0 {
        0
    } else if b.last() == NEWLINE {
        newline_count(b)
    } else {
        newline_count(b) + 1
    }
}

/// The runs of bytes between `'\n'` separators (always at least one run).
pub open spec fn pieces(b: Seq<u8>) -> Seq<Seq<u8>>
    decreases b.len(),
{
    if b.len() == 0 {
        seq![Seq::empty()]
    } else {
        let p = pieces(b.drop_last());
        if b.last() == NEWLINE {
            p.push(Seq::empty())
        } else {
            p.update(p.len() - 1, p.last().push(b.last()))
        }
    }
}

/// The logical lines of `b`: the pieces between separators, where a final
/// `'\n'` terminates the last line instead of starting an empty one.
pub open spec fn lines(b: Seq<u8>) -> Seq<Seq<u8>> {
    if b.len() == 0 || b.last() == NEWLINE {
        pieces(b).drop_last()
    } else {
        pieces(b)
    }
}

/// The lines `ls` joined with `'\n'` between each two of them.
pub open spec fn join_lines(ls: Seq<Seq<u8>>) -> Seq<u8>
    decreases ls.len(),
{
    if ls.len() == 0 {
        Seq::empty()
    } else if ls.len() == 1 {
        ls[0]
    } else {
        join_lines(ls.drop_last()) + seq![NEWLINE] + ls.last()
    }
}

proof fn lemma_pieces_len(b: Seq<u8>)
    ensures
        pieces(b).len() == newline_count(b) + 1,
    decreases b.len(),
{
    if b.len() > 0 {
        lemma_pieces_len(b.drop_last());
    }
}

proof fn lemma_occurrences_bound(b: Seq<u8>, x: u8)
    ensures
        occurrences(b, x) <= b.len(),
        b.len() > 0 && b.last() != x ==> occurrences(b, x) < b.len(),
    decreases b.len(),
{
    if b.len() > 0 {
        lemma_occurrences_bound(b.drop_last(), x);
    }
}

/// Appending bytes without a separator extends the last piece.
proof fn lemma_pieces_extend(x: Seq<u8>, y: Seq<u8>)
    requires
        forall|k: int| 0 <= k < y.len() ==> y[k] != NEWLINE,
    ensures
        pieces(x + y) == pieces(x).update(pieces(x).len() - 1, pieces(x).last() + y),
    decreases y.len(),
{
    lemma_pieces_len(x);
    if y.len() == 0 {
        assert(x + y =~= x);
        assert(pieces(x).last() + y =~= pieces(x).last());
        assert(pieces(x).update(pieces(x).len() - 1, pieces(x).last()) =~= pieces(x));
    } else {
        let y0 = y.drop_last();
        lemma_pieces_extend(x, y0);
        assert((x + y).drop_last() =~= x + y0);
        assert((x + y).last() == y.last());
        assert(y[y.len() - 1] != NEWLINE);
        let p = pieces(x + y0);
        assert(p.last() =~= pieces(x).last() + y0);
        assert(p.last().push(y.last()) =~= pieces(x).last() + y);
        assert(pieces(x + y) == p.update(p.len() - 1, p.last().push(y.last())));
        assert(pieces(x + y) =~= pieces(x).update(pieces(x).len() - 1, pieces(x).last() + y));
    }
}

/// Number of bytes of `haystack` equal to `needle`.
pub fn count(haystack: &[u8], needle: u8) -> (r: usize)
    ensures
        r == occurrences(haystack@, needle),
{
    let mut n: usize = 0;
    let mut i: usize = 0;
    while i < haystack.len()
        invariant
            i <= haystack@.len(),
            n == occurrences(haystack@.subrange(0, i as int), needle),
        decreases haystack@.len() - i,
    {
        proof {
            assert(haystack@.subrange(0, i as int + 1).drop_last() =~= haystack@.subrange(0, i as int));
            lemma_occurrences_bound(haystack@.subrange(0, i as int), needle);
        }
        if haystack[i] == needle {
            n = n + 1;
        }
        i = i + 1;
    }
    assert(haystack@.subrange(0, haystack@.len() as int) =~= haystack@);
    n
}

/// Counts the lines of `data`: the `'\n'` bytes, plus one when the data is
/// non-empty and does not end in `'\n'`. Works on any bytes, text or not.
pub fn count_lines(data: &[u8]) -> (r: usize)
    ensures
        r == line_count(data@),
{
    let newlines = count(data, NEWLINE);
    proof {
        lemma_occurrences_bound(data@, NEWLINE);
    }
    if data.len() > 0 && data[data.len() - 1] != NEWLINE {
        newlines + 1
    } else {
        newlines
    }
}

/// The UTF-8 bytes of each string slice of `v`.
pub open spec fn bytes_of(v: Seq<&str>) -> Seq<Seq<u8>> {
    v.map_values(|l: &str| l.spec_bytes())
}

/// Splits `text` into its logical lines (see [`lines`]), borrowing each.
pub fn split_lines(text: &str) -> (r: Vec<&str>)
    ensures
        bytes_of(r@) == lines(text.spec_bytes()),
{
    let ghost all = text.spec_bytes();
    let mut out: Vec<&str> = Vec::new();
    let mut rest: &str = text;
    let ghost pos: int = 0;
    loop
        invariant
            all == text.spec_bytes(),
            0 <= pos <= all.len(),
            rest.spec_bytes() == all.subrange(pos, all.len() as int),
            pos == 0 || all[pos - 1] == NEWLINE,
            bytes_of(out@) == pieces(all.subrange(0, pos)).drop_last(),
        decreases all.len() - pos,
    {
        let rb = rest.as_bytes();
        let mut j: usize = 0;
        while j < rb.len() && rb[j] != NEWLINE
            invariant
                j <= rb@.len(),
                rb@ == rest.spec_bytes(),
                forall|k: int| 0 <= k < j ==> rb@[k] != NEWLINE,
            decreases rb@.len() - j,
        {
            j = j + 1;
        }
        let ghost prefix = all.subrange(0, pos);
        proof {
            lemma_pieces_len(prefix);
            lemma_pieces_extend(prefix, rb@.subrange(0, j as int));
            if pos == 0 {
                assert(pieces(prefix) =~= seq![Seq::<u8>::empty()]);
            } else {
                assert(prefix.drop_last() + seq![NEWLINE] =~= prefix);
                assert(prefix.last() == NEWLINE);
            }
            assert(pieces(prefix).last() =~= Seq::<u8>::empty());
            assert(prefix + rb@.subrange(0, j as int) =~= all.subrange(0, pos + j));
        }
        if j == rb.len() {
            let ghost before = bytes_of(out@);
            if j > 0 {
                out.push(rest);
            }
            proof {
                assert(all.subrange(0, pos + j) =~= all);
                assert(Seq::<u8>::empty() + rb@ =~= rb@);
                if j == 0 {
                    assert(prefix =~= all);
                    assert(pos == all.len());
                    assert(all.len() == 0 || all.last() == NEWLINE);
                    assert(lines(all) == pieces(all).drop_last());
                    assert(bytes_of(out@) =~= lines(all));
                } else {
                    assert(all.last() == rb@[j - 1]);
                    assert(rb@.subrange(0, j as int) =~= rb@);
                    assert(pieces(prefix) =~= before.push(Seq::<u8>::empty()));
                    assert(prefix + rb@ =~= all);
                    assert(pieces(all) =~= before.push(rb@));
                    assert(lines(all) == pieces(all));
                    assert(bytes_of(out@) =~= before.push(rb@));
                }
            }
            return out;
        }
        proof {
            is_char_boundary_iff_not_is_continuation_byte(rb@, j as int);
        }
        let (line, tail) = rest.split_at(j);
        proof {
            reveal_with_fuel(is_char_boundary, 2);
            assert(tail.spec_bytes()[0] == NEWLINE);
            if tail.spec_bytes().len() == 1 {
                is_char_boundary_start_end_of_seq(tail.spec_bytes());
            }
        }
        let (_sep, next) = tail.split_at(1);
        let ghost before = bytes_of(out@);
        proof {
            let upto = all.subrange(0, pos + j);
            assert(all.subrange(0, pos + j + 1).drop_last() =~= upto);
            assert(line.spec_bytes() =~= rb@.subrange(0, j as int));
            assert(Seq::<u8>::empty() + line.spec_bytes() =~= line.spec_bytes());
            assert(next.spec_bytes() =~= all.subrange(pos + j + 1, all.len() as int));
            assert(all.subrange(0, pos + j + 1).last() == NEWLINE);
            assert(pieces(upto) =~= before.push(line.spec_bytes()));
            assert(pieces(all.subrange(0, pos + j + 1)).drop_last() =~= pieces(upto));
            pos = pos + j + 1;
        }
        out.push(line);
        rest = next;
        proof {
            assert(bytes_of(out@) =~= before.push(line.spec_bytes()));
        }
    }
}

/// `encode_utf8` maps concatenation to concatenation.
proof fn lemma_encode_utf8_concat(x: Seq<char>, y: Seq<char>)
    ensures
        encode_utf8(x + y) == encode_utf8(x) + encode_utf8(y),
    decreases x.len(),
{
    if x.len() == 0 {
        assert(x + y =~= y);
        assert(encode_utf8(x) =~= Seq::<u8>::empty());
        assert(Seq::<u8>::empty() + encode_utf8(y) =~= encode_utf8(y));
    } else {
        lemma_encode_utf8_concat(x.drop_first(), y);
        assert((x + y).drop_first() =~= x.drop_first() + y);
        assert((x + y)[0] == x[0]);
        assert(encode_utf8(x + y) =~= encode_utf8(x) + encode_utf8(y));
    }
}

/// The one-character string `"\n"` encodes as the single byte `'\n'`.
proof fn lemma_encode_newline()
    ensures
        encode_utf8("\n"@) == seq![NEWLINE],
{
    reveal_strlit("\n");
    let s = "\n"@;
    assert(s.len() == 1);
    assert(s.drop_first() =~= Seq::<char>::empty());
    assert(encode_utf8(s.drop_first()) =~= Seq::<u8>::empty());
    assert(('\n' as u32) == 10u32);
    assert((10u32 & 0x7F) as u8 == 10u8) by (bit_vector);
    assert(encode_scalar(s[0] as u32) =~= seq![NEWLINE]);
    assert(encode_utf8(s) =~= seq![NEWLINE] + Seq::<u8>::empty());
    assert(seq![NEWLINE] + Seq::<u8>::empty() =~= seq![NEWLINE]);
}

/// Errors of the text operations. Each carries a human-readable cause.
#[derive(Debug, PartialEq, Eq)]
pub enum FileError {
    /// Opening or reading failed, the range was invalid, or the bytes are not UTF-8.
    IoError(String),
    /// The file could not be mapped.
    MmapError(String),
    /// The search pattern does not compile.
    RegexError(String),
}

impl FileError {
    /// The error's description, prefixed with its class.
    pub fn message(&self) -> (r: String)
        ensures
            r@ == match self {
                FileError::IoError(m) => "IO error: "@ + m@,
                FileError::MmapError(m) => "Mmap error: "@ + m@,
                FileError::RegexError(m) => "Regex error: "@ + m@,
            },
    {
        match self {
            FileError::IoError(m) => String::from_str("IO error: ").concat(m.as_str()),
            FileError::MmapError(m) => String::from_str("Mmap error: ").concat(m.as_str()),
            FileError::RegexError(m) => String::from_str("Regex error: ").concat(m.as_str()),
        }
    }
}

/// Relies on `String::from_utf8`: it succeeds exactly on valid UTF-8, and the
/// string then holds those bytes; on failure, the error's description.
#[verifier::external_body]
fn string_from_utf8(v: Vec<u8>) -> (r: Result<String, String>)
    ensures
        r is Ok <==> valid_utf8(v@),
        r is Ok ==> encode_utf8(r->Ok_0@) == v@,
{
    String::from_utf8(v).map_err(|e| e.to_string())
}

/// Whether the text `s` begins with the text `p`.
pub open spec fn has_prefix(s: Seq<char>, p: Seq<char>) -> bool {
    p.len() <= s.len() && s.subrange(0, p.len() as int) == p
}

/// Whether `e` is the error for bytes that are not UTF-8: an `IoError`
/// whose description begins `Invalid UTF-8: `.
pub open spec fn is_decode_error(e: FileError) -> bool {
    e is IoError && has_prefix(e->IoError_0@, "Invalid UTF-8: "@)
}

/// Decodes the file bytes `data` as UTF-8 text, all or nothing.
pub fn read_file_content(data: Vec<u8>) -> (r: Result<String, FileError>)
    ensures
        r is Ok <==> valid_utf8(data@),
        r is Ok ==> encode_utf8(r->Ok_0@) == data@,
        r is Err ==> is_decode_error(r->Err_0),
{
    match string_from_utf8(data) {
        Ok(s) => Ok(s),
        Err(e) => {
            let msg = String::from_str("Invalid UTF-8: ").concat(e.as_str());
            proof {
                reveal_strlit("Invalid UTF-8: ");
                assert(msg@.subrange(0, 15) =~= "Invalid UTF-8: "@);
            }
            Err(FileError::IoError(msg))
        },
    }
}

/// The lines `start..=end` (1-indexed) of `b`, with `end` clamped to the line count.
pub open spec fn line_range_spec(b: Seq<u8>, start: int, end: int) -> Seq<u8> {
    let n = lines(b).len() as int;
    join_lines(lines(b).subrange(start - 1, if end < n { end } else { n }))
}

/// Whether a 1-indexed range is rejected for a text of `n` lines.
pub open spec fn range_rejected(n: int, start: int, end: int) -> bool {
    start == 0 || end == 0 || start > end || start > n
}

/// Lines `start..=end` (1-indexed, inclusive) of `content`, joined by `'\n'`.
/// A start past the last line is an error; an end past it is clamped.
pub fn line_range(content: &str, start: usize, end: usize) -> (r: Result<String, FileError>)
    ensures
        r is Err <==> range_rejected(lines(content.spec_bytes()).len() as int, start as int, end as int),
        r is Err ==> r->Err_0 is IoError && r->Err_0->IoError_0@ == "Invalid line range"@,
        r is Ok ==> encode_utf8(r->Ok_0@) == line_range_spec(content.spec_bytes(), start as int, end as int),
{
    let ls = split_lines(content);
    let ghost all = lines(content.spec_bytes());
    let n = ls.len();
    if start == 0 || end == 0 || start > end || start > n {
        proof {
            reveal_strlit("Invalid line range");
        }
        return Err(FileError::IoError(String::from_str("Invalid line range")));
    }
    let stop: usize = if end < n { end } else { n };
    let mut out = String::new();
    let mut i: usize = start - 1;
    proof {
        assert(encode_utf8(out@) =~= Seq::<u8>::empty());
    }
    while i < stop
        invariant
            bytes_of(ls@) == all,
            ls@.len() == n,
            1 <= start,
            start - 1 <= i <= stop <= n,
            encode_utf8(out@) == join_lines(all.subrange(start - 1, i as int)),
        decreases stop - i,
    {
        let ghost prev = out@;
        if i > start - 1 {
            out.append("\n");
        }
        let ghost mid = out@;
        out.append(ls[i]);
        proof {
            let part = all.subrange(start - 1, i as int + 1);
            assert(part.drop_last() =~= all.subrange(start - 1, i as int));
            assert(all[i as int] == ls@[i as int].spec_bytes());
            lemma_encode_utf8_concat(mid, ls@[i as int]@);
            if i > start - 1 {
                lemma_encode_utf8_concat(prev, "\n"@);
                lemma_encode_newline();
            } else {
                assert(encode_utf8(out@) =~= part[0]);
            }
        }
        i = i + 1;
    }
    Ok(out)
}

/// Lines `start..=end` (1-indexed, inclusive) of the file bytes `data`,
/// which must be UTF-8 text.
pub fn read_line_range(data: Vec<u8>, start: usize, end: usize) -> (r: Result<String, FileError>)
    ensures
        !valid_utf8(data@) ==> r is Err && is_decode_error(r->Err_0),
        valid_utf8(data@) ==> (r is Err <==> range_rejected(lines(data@).len() as int, start as int, end as int)),
        valid_utf8(data@) && r is Err ==> r->Err_0 is IoError && r->Err_0->IoError_0@ == "Invalid line range"@,
        r is Ok ==> encode_utf8(r->Ok_0@) == line_range_spec(data@, start as int, end as int),
{
    let content = read_file_content(data)?;
    line_range(content.as_str(), start, end)
}

/// Joining the pieces of `b` with `'\n'` gives `b` back.
proof fn lemma_join_pieces(b: Seq<u8>)
    ensures
        join_lines(pieces(b)) == b,
    decreases b.len(),
{
    lemma_pieces_len(b);
    if b.len() == 0 {
        assert(join_lines(pieces(b)) =~= b);
    } else {
        let b0 = b.drop_last();
        let p = pieces(b0);
        lemma_join_pieces(b0);
        lemma_pieces_len(b0);
        if b.last() == NEWLINE {
            assert(pieces(b).drop_last() =~= p);
            assert(join_lines(pieces(b)) =~= b);
        } else {
            let q = pieces(b);
            if p.len() == 1 {
                assert(join_lines(q) =~= b);
            } else {
                assert(q.len() == p.len());
                assert(q.drop_last() =~= p.drop_last());
                assert(q.last() =~= p.last().push(b.last()));
                assert(join_lines(p) == join_lines(p.drop_last()) + seq![NEWLINE] + p.last());
                assert(join_lines(q) == join_lines(q.drop_last()) + seq![NEWLINE] + q.last());
                assert(b0.push(b.last()) =~= b);
                assert(join_lines(q) =~= b);
            }
        }
    }
}

/// The number of logical lines is the line count.
pub proof fn lemma_lines_len(b: Seq<u8>)
    ensures
        lines(b).len() == line_count(b),
{
    lemma_pieces_len(b);
}

/// `b` without its final `'\n'`, if it has one.
pub open spec fn without_final_newline(b: Seq<u8>) -> Seq<u8> {
    if b.len() > 0 && b.last() == NEWLINE {
        b.drop_last()
    } else {
        b
    }
}

/// For non-empty file bytes, the range from the first line to the line count
/// is accepted and gives the whole content without its final newline.
pub proof fn lemma_full_range_is_content(b: Seq<u8>)
    requires
        b.len() > 0,
    ensures
        !range_rejected(lines(b).len() as int, 1, line_count(b) as int),
        line_range_spec(b, 1, line_count(b) as int) == without_final_newline(b),
{
    lemma_lines_len(b);
    lemma_join_pieces(b);
    lemma_pieces_len(b);
    let ls = lines(b);
    assert(ls.subrange(0, ls.len() as int) =~= ls);
    if b.last() == NEWLINE {
        let p = pieces(b);
        lemma_pieces_len(b.drop_last());
        assert(p.drop_last() =~= pieces(b.drop_last()));
        lemma_join_pieces(b.drop_last());
    }
}

} // verus!

//! The word source and its segmentation into prompt lines.

use crate::config::ConfigError;
use crate::text::{join, to_chars, to_text};
use vstd::prelude::*;

verus! {

/// One unit of target text to type.
#[derive(Debug, PartialEq, Eq)]
pub struct PromptLine {
    text: Vec<char>,
}

impl View for PromptLine {
    type V = Seq<char>;

    closed spec fn view(&self) -> Seq<char> {
        self.text@
    }
}

impl PromptLine {
    /// A line with the given characters as its text.
    pub fn from_chars(text: Vec<char>) -> (line: PromptLine)
        ensures
            line@ == text@,
    {
        PromptLine { text }
    }

    /// The number of characters of the line.
    pub fn len(&self) -> (n: usize)
        ensures
            n == self@.len(),
    {
        self.text.len()
    }

    /// The characters of the line.
    pub fn chars(&self) -> (chars: &Vec<char>)
        ensures
            chars@ == self@,
    {
        &self.text
    }

    /// The line as a string.
    pub fn text(&self) -> (s: String)
        ensures
            s@ == self@,
    {
        to_text(&self.text)
    }

    /// A copy of the characters of the line.
    pub fn to_chars(&self) -> (chars: Vec<char>)
        ensures
            chars@ == self@,
    {
        let mut chars: Vec<char> = Vec::new();
        append_chars(&mut chars, &self.text);
        chars
    }
}

/// The texts of a sequence of lines.
pub open spec fn line_texts(lines: Seq<PromptLine>) -> Seq<Seq<char>> {
    Seq::new(lines.len(), |k: int| lines[k]@)
}

/// Appends the characters of `src` to `out`.
pub fn append_chars(out: &mut Vec<char>, src: &Vec<char>)
    ensures
        final(out)@ == old(out)@ + src@,
{
    let mut i: usize = 0;
    while i < src.len()
        invariant
            i <= src.len(),
            out@ == old(out)@ + src@.subrange(0, i as int),
        decreases src.len() - i,
    {
        out.push(src[i]);
        i += 1;
        assert(out@ =~= old(out)@ + src@.subrange(0, i as int));
    }
    assert(src@.subrange(0, src.len() as int) =~= src@);
}

/// An ordered sequence of word tokens.
#[derive(Debug)]
pub struct WordSource {
    words: Vec<Vec<char>>,
}

impl View for WordSource {
    type V = Seq<Seq<char>>;

    closed spec fn view(&self) -> Seq<Seq<char>> {
        Seq::new(self.words@.len(), |i: int| self.words@[i]@)
    }
}

/// The number of groups that `words` words fall into, `n` to a group.
pub open spec fn chunk_count(words: nat, n: nat) -> nat
    recommends
        n > 0,
{
    ((words + n - 1) / (n as int)) as nat
}

/// The words of group `k`, with `n` words to a group.
pub open spec fn chunk_group(words: Seq<Seq<char>>, n: nat, k: int) -> Seq<Seq<char>> {
    words.subrange(k * n, if (k + 1) * n <= words.len() { (k + 1) * n } else { words.len() as int })
}

/// The texts of the prompts that fixed-count chunking makes of `words`.
pub open spec fn chunked(words: Seq<Seq<char>>, n: nat) -> Seq<Seq<char>> {
    Seq::new(chunk_count(words.len(), n), |k: int| join(chunk_group(words, n, k)))
}

/// Whether word `i` is word `i % n` of group `i / n`, and that group exists.
pub open spec fn word_is_placed(words: Seq<Seq<char>>, n: nat, i: int) -> bool {
    &&& 0 <= i / (n as int) < chunk_count(words.len(), n)
    &&& 0 <= i % (n as int) < chunk_group(words, n, i / (n as int)).len()
    &&& chunk_group(words, n, i / (n as int))[i % (n as int)] == words[i]
}

/// Fixed-count chunking partitions the words in their order: the number of
/// groups is the word count divided by `n` and rounded up, every group but
/// the last holds exactly `n` words, the last holds between one and `n`, and
/// word `i` is word `i % n` of group `i / n`.
pub proof fn lemma_chunks_partition(words: Seq<Seq<char>>, n: nat)
    requires
        words.len() > 0,
        n > 0,
    ensures
        (chunk_count(words.len(), n) - 1) * n < words.len() <= chunk_count(words.len(), n) * n,
        chunked(words, n).len() == chunk_count(words.len(), n),
        forall|k: int|
            0 <= k < chunk_count(words.len(), n) - 1 ==> (#[trigger] chunk_group(
                words,
                n,
                k,
            )).len() == n,
        1 <= chunk_group(words, n, chunk_count(words.len(), n) - 1).len() <= n,
        forall|i: int| 0 <= i < words.len() ==> #[trigger] word_is_placed(words, n, i),
{
    let l = words.len() as int;
    let m = n as int;
    let c = chunk_count(words.len(), n) as int;
    assert((c - 1) * m < l <= c * m && c >= 1) by (nonlinear_arith)
        requires
            l > 0,
            m > 0,
            c == (l + m - 1) / m,
    ;
    assert forall|k: int| 0 <= k < c - 1 implies (#[trigger] chunk_group(words, n, k)).len()
        == n by {
        assert(0 <= k * m && (k + 1) * m == k * m + m && (k + 1) * m <= (c - 1) * m)
            by (nonlinear_arith)
            requires
                0 <= k < c - 1,
                m > 0,
        ;
    }
    assert((c - 1) * m + m == c * m) by (nonlinear_arith);
    assert forall|i: int| 0 <= i < words.len() implies #[trigger] word_is_placed(words, n, i) by {
        let q = i / m;
        let r = i % m;
        assert(i == q * m + r && 0 <= r < m && 0 <= q && (q + 1) * m == q * m + m)
            by (nonlinear_arith)
            requires
                0 <= i,
                m > 0,
                q == i / m,
                r == i % m,
        ;
        assert(q < c) by (nonlinear_arith)
            requires
                q * m <= i,
                i < l,
                l <= c * m,
                m > 0,
        ;
    }
}

/// How many of the leading words go onto one line of at most `width`
/// characters, when the first `j` of them are on it already: the next word
/// is taken as long as the line, joined with single spaces, stays within the
/// width.
pub open spec fn line_extent(words: Seq<Seq<char>>, width: nat, j: nat) -> nat
    decreases words.len() - j,
{
    if j < words.len() && join(words.take((j + 1) as int)).len() <= width {
        line_extent(words, width, j + 1)
    } else {
        j
    }
}

/// The texts of the lines that width-bounded wrapping makes of `words`: each
/// line starts with the first word that is left, takes further words
/// greedily, and ends with one trailing space.
pub open spec fn wrapped(words: Seq<Seq<char>>, width: nat) -> Seq<Seq<char>>
    decreases words.len(),
{
    let taken = line_extent(words, width, 1);
    if 1 <= taken <= words.len() {
        seq![join(words.take(taken as int)) + seq![' ']] + wrapped(
            words.skip(taken as int),
            width,
        )
    } else {
        Seq::empty()
    }
}

/// The line that starts with `j` words ends with at least `j` words and at
/// most all of them. It fits into the width unless it holds no more than
/// those `j` words, and it is greedy: the word after it would not fit.
pub proof fn lemma_line_extent(words: Seq<Seq<char>>, width: nat, j: nat)
    requires
        j <= words.len(),
    ensures
        j <= line_extent(words, width, j) <= words.len(),
        line_extent(words, width, j) > j ==> join(
            words.take(line_extent(words, width, j) as int),
        ).len() <= width,
        line_extent(words, width, j) < words.len() ==> join(
            words.take((line_extent(words, width, j) + 1) as int),
        ).len() > width,
    decreases words.len() - j,
{
    if j < words.len() && join(words.take((j + 1) as int)).len() <= width {
        lemma_line_extent(words, width, j + 1);
    }
}

impl WordSource {
    /// A source of the given words, in their order. An empty token counts
    /// as a word of no characters.
    pub fn new(words: Vec<String>) -> (source: WordSource)
        ensures
            source@ == Seq::new(words@.len(), |i: int| words@[i]@),
    {
        let mut out: Vec<Vec<char>> = Vec::new();
        let mut i: usize = 0;
        while i < words.len()
            invariant
                i <= words.len(),
                out@.len() == i,
                forall|k: int| 0 <= k < i ==> out@[k]@ == words@[k]@,
            decreases words.len() - i,
        {
            out.push(to_chars(words[i].as_str()));
            i += 1;
        }
        let source = WordSource { words: out };
        assert(source@ =~= Seq::new(words@.len(), |i: int| words@[i]@));
        source
    }

    /// The number of words.
    pub fn len(&self) -> (n: usize)
        ensures
            n == self@.len(),
    {
        self.words.len()
    }

    /// Whether the source holds no word.
    pub fn is_empty(&self) -> (b: bool)
        ensures
            b == (self@.len() == 0),
    {
        self.words.len() == 0
    }

    /// The words from index `from` up to `to`, joined with single spaces.
    fn join_range(&self, from: usize, to: usize) -> (text: Vec<char>)
        requires
            from <= to <= self@.len(),
        ensures
            text@ == join(self@.subrange(from as int, to as int)),
    {
        let mut text: Vec<char> = Vec::new();
        let mut j: usize = from;
        while j < to
            invariant
                from <= j <= to <= self@.len(),
                self@.len() == self.words@.len(),
                text@ == join(self@.subrange(from as int, j as int)),
            decreases to - j,
        {
            proof {
                let next = self@.subrange(from as int, j + 1);
                assert(next.drop_last() =~= self@.subrange(from as int, j as int));
                assert(next.last() == self.words@[j as int]@);
            }
            if j > from {
                text.push(' ');
            }
            append_chars(&mut text, &self.words[j]);
            j += 1;
            assert(text@ =~= join(self@.subrange(from as int, j as int)));
        }
        text
    }

    /// Fixed-count chunking: the words in groups of `n`, the last group
    /// possibly shorter, each group joined with single spaces into one line.
    /// A group size of zero is refused.
    pub fn chunks(&self, n: usize) -> (r: Result<Vec<PromptLine>, ConfigError>)
        ensures
            n == 0 <==> r is Err,
            r is Err ==> r == Err::<Vec<PromptLine>, ConfigError>(ConfigError::ZeroChunkSize),
            r is Ok ==> line_texts(r->Ok_0@) == chunked(self@, n as nat),
    {
        if n == 0 {
            return Err(ConfigError::ZeroChunkSize);
        }
        let len: usize = self.words.len();
        let mut lines: Vec<PromptLine> = Vec::new();
        let mut i: usize = 0;
        assert(lines@.len() * n == 0) by (nonlinear_arith)
            requires
                lines@.len() == 0,
        ;
        while i < len
            invariant
                n > 0,
                len == self@.len(),
                i <= len,
                i == len || i == lines@.len() * n,
                lines@.len() * n >= i,
                lines@.len() > 0 ==> (lines@.len() - 1) * n < len,
                forall|k: int|
                    0 <= k < lines@.len() ==> (#[trigger] lines@[k])@ == join(
                        chunk_group(self@, n as nat, k),
                    ),
            decreases len - i,
        {
            let end: usize = if len - i > n { i + n } else { len };
            let ghost k = lines@.len() as int;
            proof {
                assert((k + 1) * n == k * n + n) by (nonlinear_arith);
                assert(chunk_group(self@, n as nat, k) == self@.subrange(i as int, end as int));
            }
            let text = self.join_range(i, end);
            lines.push(PromptLine::from_chars(text));
            i = end;
            proof {
                assert(lines@.len() * n == k * n + n) by (nonlinear_arith)
                    requires
                        lines@.len() == k + 1,
                ;
                assert((lines@.len() - 1) * n == k * n) by (nonlinear_arith)
                    requires
                        lines@.len() == k + 1,
                ;
            }
        }
        proof {
            let k = lines@.len() as int;
            let l = len as int;
            let m = n as int;
            assert((l + m - 1) / m == k) by (nonlinear_arith)
                requires
                    m > 0,
                    k >= 0,
                    l >= 0,
                    k * m >= l,
                    k > 0 ==> (k - 1) * m < l,
            ;
            assert(line_texts(lines@) =~= chunked(self@, n as nat));
        }
        Ok(lines)
    }

    /// Width-bounded wrapping: the words packed greedily onto lines of at
    /// most `width` characters, a word that is longer than that alone on its
    /// line, and one trailing space after each line. A width of zero is
    /// refused.
    pub fn wrap(&self, width: usize) -> (r: Result<Vec<PromptLine>, ConfigError>)
        ensures
            width == 0 <==> r is Err,
            r is Err ==> r == Err::<Vec<PromptLine>, ConfigError>(ConfigError::ZeroVisibleWidth),
            r is Ok ==> line_texts(r->Ok_0@) == wrapped(self@, width as nat),
    {
        if width == 0 {
            return Err(ConfigError::ZeroVisibleWidth);
        }
        let len: usize = self.words.len();
        let mut lines: Vec<PromptLine> = Vec::new();
        let mut i: usize = 0;
        assert(self@.skip(0) =~= self@);
        assert(line_texts(lines@) + wrapped(self@.skip(0), width as nat) =~= wrapped(
            self@,
            width as nat,
        ));
        while i < len
            invariant
                len == self@.len(),
                len == self.words@.len(),
                i <= len,
                line_texts(lines@) + wrapped(self@.skip(i as int), width as nat) == wrapped(
                    self@,
                    width as nat,
                ),
            decreases len - i,
        {
            let ghost rest = self@.skip(i as int);
            let mut line: Vec<char> = Vec::new();
            append_chars(&mut line, &self.words[i]);
            let mut j: usize = i + 1;
            proof {
                assert(rest.take(1) =~= seq![self.words@[i as int]@]);
                assert(join(rest.take(1)) == self.words@[i as int]@);
                assert(line@ =~= join(rest.take(1)));
            }
            while j < len && self.words[j].len() <= width && line.len() < width
                - self.words[j].len()
                invariant
                    len == self@.len(),
                    len == self.words@.len(),
                    i < j <= len,
                    rest == self@.skip(i as int),
                    line@ == join(rest.take(j - i)),
                    line_extent(rest, width as nat, (j - i) as nat) == line_extent(
                        rest,
                        width as nat,
                        1,
                    ),
                decreases len - j,
            {
                proof {
                    let next = rest.take(j - i + 1);
                    assert(next.drop_last() =~= rest.take(j - i));
                    assert(next.last() == self.words@[j as int]@);
                    assert(join(next) == line@ + seq![' '] + self.words@[j as int]@);
                }
                line.push(' ');
                append_chars(&mut line, &self.words[j]);
                j += 1;
            }
            proof {
                let taken = (j - i) as nat;
                if j < len {
                    let next = rest.take(j - i + 1);
                    assert(next.drop_last() =~= rest.take(j - i));
                    assert(next.last() == self.words@[j as int]@);
                    assert(join(next) == line@ + seq![' '] + self.words@[j as int]@);
                }
                assert(line_extent(rest, width as nat, taken) == taken);
                assert(rest.skip(taken as int) =~= self@.skip(j as int));
            }
            line.push(' ');
            let ghost before = lines@;
            lines.push(PromptLine::from_chars(line));
            assert(lines@.last()@ == join(rest.take(j - i)) + seq![' ']);
            proof {
                let taken = (j - i) as nat;
                let first = join(rest.take(taken as int)) + seq![' '];
                assert(line_texts(lines@) =~= line_texts(before) + seq![first]);
                assert(wrapped(rest, width as nat) == seq![first] + wrapped(
                    rest.skip(taken as int),
                    width as nat,
                ));
                assert(line_texts(lines@) + wrapped(self@.skip(j as int), width as nat)
                    =~= line_texts(before) + wrapped(rest, width as nat));
            }
            i = j;
        }
        assert(line_texts(lines@) + wrapped(self@.skip(i as int), width as nat) =~= line_texts(
            lines@,
        ));
        Ok(lines)
    }

    /// All the words joined with single spaces.
    pub fn joined(&self) -> (text: Vec<char>)
        ensures
            text@ == join(self@),
    {
        assert(self@.subrange(0, self@.len() as int) =~= self@);
        self.join_range(0, self.words.len())
    }
}

} // verus!

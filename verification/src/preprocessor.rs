use vstd::prelude::*;

verus! {

/// Character-for-character string equality.
fn str_eq(a: &str, b: &str) -> (r: bool)
    ensures
        r == (a@ == b@),
{
    let a_len = a.unicode_len();
    let b_len = b.unicode_len();
    if a_len != b_len {
        return false;
    }
    let mut i: usize = 0;
    while i < a_len
        invariant
            i <= a_len,
            a_len == a@.len(),
            a@.len() == b@.len(),
            forall|j: int| 0 <= j < i ==> a@[j] == b@[j],
        decreases a_len - i,
    {
        if a.get_char(i) != b.get_char(i) {
            return false;
        }
        i = i + 1;
    }
    proof {
        assert(a@ =~= b@);
    }
    true
}

/// The value recorded for a name, scanning from the front (the newest
/// definition stands first and wins).
pub open spec fn lookup_value(entries: Seq<(String, String)>, identifier: Seq<char>) -> Option<
    Seq<char>,
>
    decreases entries.len(),
{
    if entries.len() == 0 {
        None
    } else if entries[0].0@ == identifier {
        Some(entries[0].1@)
    } else {
        lookup_value(entries.drop_first(), identifier)
    }
}

/// A lookup finds the definition at a given position when no earlier one
/// carries the name.
proof fn lemma_lookup_at_index(entries: Seq<(String, String)>, i: int, identifier: Seq<char>)
    requires
        0 <= i < entries.len(),
        entries[i].0@ == identifier,
        forall|j: int| 0 <= j < i ==> (#[trigger] entries[j]).0@ != identifier,
    ensures
        lookup_value(entries, identifier) == Some(entries[i].1@),
    decreases i,
{
    if i > 0 {
        assert(entries.drop_first()[i - 1] == entries[i]);
        assert(forall|j: int| 0 <= j < i - 1 ==> (#[trigger] entries.drop_first()[j]) == entries[
            j + 1
        ]);
        lemma_lookup_at_index(entries.drop_first(), i - 1, identifier);
    }
}

/// A lookup finds nothing exactly when no definition carries the name.
proof fn lemma_lookup_absent(entries: Seq<(String, String)>, identifier: Seq<char>)
    ensures
        (lookup_value(entries, identifier) is None) <==> (forall|j: int|
            0 <= j < entries.len() ==> (#[trigger] entries[j]).0@ != identifier),
    decreases entries.len(),
{
    if entries.len() > 0 {
        lemma_lookup_absent(entries.drop_first(), identifier);
        assert(forall|j: int| 0 <= j < entries.drop_first().len() ==> (
        #[trigger] entries.drop_first()[j]) == entries[j + 1]);
        if entries[0].0@ != identifier && lookup_value(entries.drop_first(), identifier) is None {
            assert(forall|j: int| 1 <= j < entries.len() ==> (#[trigger] entries[j])
                == entries.drop_first()[j - 1]);
        }
    }
}

// ---------------------------------------------------------------------------
// The directive grammar.  A line of the shader source defines a property when
// it reads, up to whitespace,
//     #pragma shaderfilter set <identifier> <value>
// with `<identifier>` a nonempty run of ASCII word characters and `<value>`
// everything from the next non-blank character to the last non-blank
// character of the line.  Such lines are collected and removed from the
// source; every other line passes through unchanged.
// ---------------------------------------------------------------------------

/// Blank characters within a line.
pub open spec fn is_space_char(c: char) -> bool {
    c == ' ' || c == '\t' || c == '\r' || c == '\u{b}' || c == '\u{c}'
}

/// ASCII word characters, the alphabet of property identifiers.
pub open spec fn is_word_char(c: char) -> bool {
    ('a' as u32 <= c as u32 && c as u32 <= 'z' as u32) || ('A' as u32 <= c as u32 && c as u32
        <= 'Z' as u32) || ('0' as u32 <= c as u32 && c as u32 <= '9' as u32) || c == '_'
}

/// The first position at or after `i` holding something other than blanks.
pub open spec fn skip_spaces(line: Seq<char>, i: int) -> int
    decreases line.len() - i,
{
    if i < 0 || i >= line.len() {
        line.len() as int
    } else if is_space_char(line[i]) {
        skip_spaces(line, i + 1)
    } else {
        i
    }
}

/// The first position at or after `i` past a run of word characters.
pub open spec fn skip_word(line: Seq<char>, i: int) -> int
    decreases line.len() - i,
{
    if i < 0 || i >= line.len() {
        line.len() as int
    } else if is_word_char(line[i]) {
        skip_word(line, i + 1)
    } else {
        i
    }
}

/// One past the last non-blank character of the line.
pub open spec fn trimmed_end(line: Seq<char>) -> int
    decreases line.len(),
{
    if line.len() == 0 {
        0
    } else if is_space_char(line[line.len() - 1]) {
        trimmed_end(line.drop_last())
    } else {
        line.len() as int
    }
}

pub open spec fn pragma_keyword() -> Seq<char> {
    seq!['#', 'p', 'r', 'a', 'g', 'm', 'a']
}

pub open spec fn shaderfilter_keyword() -> Seq<char> {
    seq!['s', 'h', 'a', 'd', 'e', 'r', 'f', 'i', 'l', 't', 'e', 'r']
}

pub open spec fn set_keyword() -> Seq<char> {
    seq!['s', 'e', 't']
}

/// The keyword stands at `i` and at least one blank follows it.
pub open spec fn keyword_at(line: Seq<char>, i: int, keyword: Seq<char>) -> bool {
    &&& 0 <= i
    &&& i + keyword.len() < line.len()
    &&& line.subrange(i, i + keyword.len() as int) == keyword
    &&& is_space_char(line[i + keyword.len()])
}

/// The directive a line defines, if any: the identifier and the value, both
/// as character sequences.
pub open spec fn directive_of_line(line: Seq<char>) -> Option<(Seq<char>, Seq<char>)> {
    let pragma_at = skip_spaces(line, 0);
    if !keyword_at(line, pragma_at, pragma_keyword()) {
        None
    } else {
        let filter_at = skip_spaces(line, pragma_at + 7);
        if !keyword_at(line, filter_at, shaderfilter_keyword()) {
            None
        } else {
            let set_at = skip_spaces(line, filter_at + 12);
            if !keyword_at(line, set_at, set_keyword()) {
                None
            } else {
                let identifier_at = skip_spaces(line, set_at + 3);
                let identifier_end = skip_word(line, identifier_at);
                if identifier_end == identifier_at {
                    None
                } else if !(identifier_end < line.len() && is_space_char(line[identifier_end])) {
                    None
                } else {
                    let value_at = skip_spaces(line, identifier_end);
                    if value_at >= line.len() {
                        None
                    } else {
                        Some(
                            (
                                line.subrange(identifier_at, identifier_end),
                                line.subrange(value_at, trimmed_end(line)),
                            ),
                        )
                    }
                }
            }
        }
    }
}

/// The first newline at or after `i`, or the end of the text.
pub open spec fn first_newline(s: Seq<char>, i: int) -> int
    decreases s.len() - i,
{
    if i < 0 || i >= s.len() {
        s.len() as int
    } else if s[i] == '\n' {
        i
    } else {
        first_newline(s, i + 1)
    }
}

/// The first newline lies between the scan start and the end of the text.
pub proof fn lemma_first_newline_range(s: Seq<char>, i: int)
    requires
        0 <= i <= s.len(),
    ensures
        i <= first_newline(s, i) <= s.len(),
    decreases s.len() - i,
{
    if i < s.len() && s[i] != '\n' {
        lemma_first_newline_range(s, i + 1);
    }
}

/// The value the source's directives give a name, the last definition
/// winning, or nothing where no line defines it.
pub open spec fn directive_value(s: Seq<char>, identifier: Seq<char>) -> Option<Seq<char>>
    decreases s.len(),
    via directive_value_decreases
{
    let newline_at = first_newline(s, 0);
    let line = s.take(newline_at);
    let rest = if newline_at < s.len() {
        directive_value(s.skip(newline_at + 1), identifier)
    } else {
        None
    };
    if rest is Some {
        rest
    } else {
        match directive_of_line(line) {
            Some((id, value)) => if id == identifier {
                Some(value)
            } else {
                None
            },
            None => None,
        }
    }
}

#[via_fn]
proof fn directive_value_decreases(s: Seq<char>, identifier: Seq<char>) {
    lemma_first_newline_range(s, 0);
}

/// The source with every directive line's text removed; line breaks stay, so
/// line numbers are preserved for the shader compiler.
pub open spec fn stripped_source(s: Seq<char>) -> Seq<char>
    decreases s.len(),
    via stripped_source_decreases
{
    let newline_at = first_newline(s, 0);
    let line = s.take(newline_at);
    let kept = if directive_of_line(line) is Some {
        Seq::<char>::empty()
    } else {
        line
    };
    if newline_at < s.len() {
        kept + seq!['\n'] + stripped_source(s.skip(newline_at + 1))
    } else {
        kept
    }
}

#[via_fn]
proof fn stripped_source_decreases(s: Seq<char>) {
    lemma_first_newline_range(s, 0);
}

/// Whether the character is a within-line blank.
fn is_space(c: char) -> (r: bool)
    ensures
        r == is_space_char(c),
{
    c == ' ' || c == '\t' || c == '\r' || c == '\u{b}' || c == '\u{c}'
}

/// Whether the character may appear in an identifier.
fn is_word(c: char) -> (r: bool)
    ensures
        r == is_word_char(c),
{
    (c >= 'a' && c <= 'z') || (c >= 'A' && c <= 'Z') || (c >= '0' && c <= '9') || c == '_'
}

/// The first position at or after `from` holding something other than blanks.
fn scan_spaces(line: &str, line_len: usize, from: usize) -> (r: usize)
    requires
        line_len == line@.len(),
        from <= line_len,
    ensures
        r == skip_spaces(line@, from as int),
        from <= r <= line_len,
        r < line_len ==> !is_space_char(line@[r as int]),
{
    let mut i = from;
    while i < line_len
        invariant
            from <= i <= line_len,
            line_len == line@.len(),
            skip_spaces(line@, from as int) == skip_spaces(line@, i as int),
        decreases line_len - i,
    {
        if !is_space(line.get_char(i)) {
            return i;
        }
        i = i + 1;
    }
    i
}

/// The first position at or after `from` past a run of word characters.
fn scan_word(line: &str, line_len: usize, from: usize) -> (r: usize)
    requires
        line_len == line@.len(),
        from <= line_len,
    ensures
        r == skip_word(line@, from as int),
        from <= r <= line_len,
{
    let mut i = from;
    while i < line_len
        invariant
            from <= i <= line_len,
            line_len == line@.len(),
            skip_word(line@, from as int) == skip_word(line@, i as int),
        decreases line_len - i,
    {
        if !is_word(line.get_char(i)) {
            return i;
        }
        i = i + 1;
    }
    i
}

/// One past the last non-blank character of the line.
fn scan_trimmed_end(line: &str, line_len: usize) -> (r: usize)
    requires
        line_len == line@.len(),
    ensures
        r == trimmed_end(line@),
        r <= line_len,
{
    let mut end = line_len;
    proof {
        assert(line@.take(line_len as int) =~= line@);
    }
    while end > 0
        invariant
            end <= line_len,
            line_len == line@.len(),
            trimmed_end(line@) == trimmed_end(line@.take(end as int)),
        decreases end,
    {
        if !is_space(line.get_char(end - 1)) {
            proof {
                assert(line@.take(end as int).len() == end);
                assert(line@.take(end as int)[end - 1] == line@[end - 1]);
            }
            return end;
        }
        proof {
            assert(line@.take(end as int)[end - 1] == line@[end - 1]);
            assert(line@.take(end as int).drop_last() =~= line@.take(end - 1));
        }
        end = end - 1;
    }
    proof {
        assert(line@.take(0) =~= Seq::<char>::empty());
    }
    0
}

/// Whether `keyword` stands at `at` with a blank after it.
fn keyword_present(line: &str, line_len: usize, at: usize, keyword: &str) -> (r: bool)
    requires
        line_len == line@.len(),
        at <= line_len,
    ensures
        r == keyword_at(line@, at as int, keyword@),
{
    let keyword_len = keyword.unicode_len();
    if line_len - at <= keyword_len {
        return false;
    }
    let mut j: usize = 0;
    while j < keyword_len
        invariant
            j <= keyword_len,
            keyword_len == keyword@.len(),
            line_len == line@.len(),
            at + keyword_len < line_len,
            forall|m: int| 0 <= m < j ==> line@[at + m] == keyword@[m],
        decreases keyword_len - j,
    {
        if line.get_char(at + j) != keyword.get_char(j) {
            proof {
                assert(line@.subrange(at as int, at + keyword@.len())[j as int] == line@[at + j]);
            }
            return false;
        }
        j = j + 1;
    }
    proof {
        assert(line@.subrange(at as int, at + keyword@.len()) =~= keyword@);
    }
    is_space(line.get_char(at + keyword_len))
}

/// Parses one line against the directive grammar.
fn parse_directive_line(line: &str) -> (r: Option<(String, String)>)
    ensures
        match r {
            Some(directive) => directive_of_line(line@) == Some((directive.0@, directive.1@)),
            None => directive_of_line(line@) is None,
        },
{
    proof {
        reveal_strlit("#pragma");
        reveal_strlit("shaderfilter");
        reveal_strlit("set");
        assert("#pragma"@ =~= pragma_keyword());
        assert("shaderfilter"@ =~= shaderfilter_keyword());
        assert("set"@ =~= set_keyword());
    }
    let line_len = line.unicode_len();
    let pragma_at = scan_spaces(line, line_len, 0);
    if !keyword_present(line, line_len, pragma_at, "#pragma") {
        return None;
    }
    let filter_at = scan_spaces(line, line_len, pragma_at + 7);
    if !keyword_present(line, line_len, filter_at, "shaderfilter") {
        return None;
    }
    let set_at = scan_spaces(line, line_len, filter_at + 12);
    if !keyword_present(line, line_len, set_at, "set") {
        return None;
    }
    let identifier_at = scan_spaces(line, line_len, set_at + 3);
    let identifier_end = scan_word(line, line_len, identifier_at);
    if identifier_end == identifier_at {
        return None;
    }
    if !(identifier_end < line_len && is_space(line.get_char(identifier_end))) {
        return None;
    }
    let value_at = scan_spaces(line, line_len, identifier_end);
    if value_at >= line_len {
        return None;
    }
    let value_end = scan_trimmed_end(line, line_len);
    proof {
        assert(value_at < trimmed_end(line@)) by {
            lemma_trimmed_end_past_non_space(line@, value_at as int);
        }
    }
    let identifier = String::from_str(line.substring_char(identifier_at, identifier_end));
    let value = String::from_str(line.substring_char(value_at, value_end));
    Some((identifier, value))
}

/// A position holding a non-blank character lies before the trimmed end.
proof fn lemma_trimmed_end_past_non_space(line: Seq<char>, i: int)
    requires
        0 <= i < line.len(),
        !is_space_char(line[i]),
    ensures
        trimmed_end(line) > i,
    decreases line.len(),
{
    if line.len() > 0 && is_space_char(line[line.len() - 1]) {
        assert(line.drop_last()[i] == line[i]);
        lemma_trimmed_end_past_non_space(line.drop_last(), i);
    }
}

/// Extracts every `#pragma shaderfilter set` directive from a shader source:
/// the collected name-value pairs (the last definition of a name winning) and
/// the source with the directive lines' text removed, line breaks kept.
pub fn preprocess(source: &str) -> (r: (PreprocessResult, String))
    ensures
        forall|identifier: Seq<char>| #[trigger] r.0.value_of(identifier) == directive_value(
            source@,
            identifier,
        ),
        r.1@ == stripped_source(source@),
{
    let source_len = source.unicode_len();
    let mut collected = PreprocessResult::new();
    let mut output = String::new();
    let mut line_start: usize = 0;
    proof {
        assert(source@.skip(0) =~= source@);
        assert(output@ + stripped_source(source@) =~= stripped_source(source@));
    }
    loop
        invariant_except_break
            line_start <= source_len,
            source_len == source@.len(),
            forall|identifier: Seq<char>| #[trigger] directive_value(source@, identifier) == match
                directive_value(source@.skip(line_start as int), identifier) {
                Some(value) => Some(value),
                None => collected.value_of(identifier),
            },
            stripped_source(source@) == output@ + stripped_source(source@.skip(line_start as int)),
        ensures
            forall|identifier: Seq<char>| #[trigger] collected.value_of(identifier)
                == directive_value(source@, identifier),
            output@ == stripped_source(source@),
        decreases source_len - line_start,
    {
        let ghost suffix = source@.skip(line_start as int);

        // Find the end of the current line.
        let mut newline_at = line_start;
        while newline_at < source_len && source.get_char(newline_at) != '\n'
            invariant
                line_start <= newline_at <= source_len,
                source_len == source@.len(),
                first_newline(suffix, 0) == first_newline(suffix, newline_at - line_start),
                suffix == source@.skip(line_start as int),
            decreases source_len - newline_at,
        {
            proof {
                assert(suffix[newline_at - line_start] == source@[newline_at as int]);
            }
            newline_at = newline_at + 1;
        }
        proof {
            if newline_at < source_len {
                assert(suffix[newline_at - line_start] == source@[newline_at as int]);
            }
            assert(first_newline(suffix, 0) == newline_at - line_start);
        }

        let line = source.substring_char(line_start, newline_at);
        proof {
            assert(line@ =~= suffix.take(newline_at - line_start));
        }
        let ghost output_before = output@;
        match parse_directive_line(line) {
            Some(directive) => {
                let (identifier, value) = directive;
                collected.insert(identifier, value);
            },
            None => {
                output.append(line);
            },
        }

        if newline_at < source_len {
            output.append("\n");
            let ghost next_suffix = source@.skip(newline_at + 1);
            proof {
                reveal_strlit("\n");
                assert("\n"@ =~= seq!['\n']);
                assert(suffix.skip(newline_at - line_start + 1) =~= next_suffix);
                assert forall|identifier: Seq<char>| #[trigger] directive_value(source@, identifier)
                    == match directive_value(next_suffix, identifier) {
                    Some(value) => Some(value),
                    None => collected.value_of(identifier),
                } by {
                    assert(directive_value(suffix, identifier) == {
                        let rest = directive_value(next_suffix, identifier);
                        if rest is Some {
                            rest
                        } else {
                            match directive_of_line(line@) {
                                Some((id, value)) => if id == identifier {
                                    Some(value)
                                } else {
                                    None
                                },
                                None => None,
                            }
                        }
                    });
                }
                assert(stripped_source(source@) == (output_before + stripped_source(suffix)));
                assert(stripped_source(suffix) == (if directive_of_line(line@) is Some {
                    Seq::<char>::empty()
                } else {
                    line@
                }) + seq!['\n'] + stripped_source(next_suffix));
                assert(stripped_source(source@) =~= output@ + stripped_source(next_suffix));
            }
            line_start = newline_at + 1;
        } else {
            proof {
                assert forall|identifier: Seq<char>| #[trigger] collected.value_of(identifier)
                    == directive_value(source@, identifier) by {
                    assert(directive_value(suffix, identifier) == match directive_of_line(line@) {
                        Some((id, value)) => if id == identifier {
                            Some(value)
                        } else {
                            None
                        },
                        None => None,
                    });
                }
                assert(stripped_source(suffix) == (if directive_of_line(line@) is Some {
                    Seq::<char>::empty()
                } else {
                    line@
                }));
                assert(output@ =~= stripped_source(source@));
            }
            break;
        }
    }
    (collected, output)
}

/// The directive values collected from a shader source: a mapping from
/// property names to their raw textual values.
pub struct PreprocessResult {
    entries: Vec<(String, String)>,
}

impl PreprocessResult {
    /// The raw value recorded for a name, if any.
    pub closed spec fn value_of(self, identifier: Seq<char>) -> Option<Seq<char>> {
        lookup_value(self.entries@, identifier)
    }

    /// An empty collection: no name has a value.
    pub fn new() -> (r: PreprocessResult)
        ensures
            forall|identifier: Seq<char>| #[trigger] r.value_of(identifier) is None,
    {
        let r = PreprocessResult { entries: Vec::new() };
        proof {
            assert forall|identifier: Seq<char>| #[trigger] r.value_of(identifier) is None by {
                lemma_lookup_absent(r.entries@, identifier);
            }
        }
        r
    }

    /// Records a definition; the newest definition of a name wins.
    pub fn insert(&mut self, identifier: String, value: String)
        ensures
            final(self).value_of(identifier@) == Some(value@),
            forall|other: Seq<char>| other != identifier@ ==> #[trigger] final(self).value_of(
                other,
            ) == old(self).value_of(other),
    {
        let ghost pre = self.entries@;
        let ghost pair = (identifier, value);
        self.entries.insert(0, (identifier, value));
        proof {
            assert(self.entries@ =~= seq![pair] + pre);
            assert(self.entries@[0] == pair);
            assert(self.entries@.drop_first() =~= pre);
        }
    }

    /// The raw value defined for `identifier` in the shader source, if any.
    pub fn parse(&self, identifier: &str) -> (r: Option<String>)
        ensures
            match r {
                Some(value) => self.value_of(identifier@) == Some(value@),
                None => self.value_of(identifier@) is None,
            },
    {
        let count = self.entries.len();
        let mut i: usize = 0;
        while i < count
            invariant
                i <= count,
                count == self.entries@.len(),
                forall|j: int| 0 <= j < i ==> (#[trigger] self.entries@[j]).0@ != identifier@,
            decreases count - i,
        {
            if str_eq(self.entries[i].0.as_str(), identifier) {
                proof {
                    lemma_lookup_at_index(self.entries@, i as int, identifier@);
                }
                return Some(String::from_str(self.entries[i].1.as_str()));
            }
            i = i + 1;
        }
        proof {
            lemma_lookup_absent(self.entries@, identifier@);
        }
        None
    }

    /// The value defined for `identifier`, the given default where none is
    /// defined, or an error naming the property where there is no default
    /// either.
    pub fn parse_default(&self, identifier: &str, default: Option<String>) -> (r: Result<
        String,
        String,
    >)
        ensures
            match r {
                Ok(value) => self.value_of(identifier@) == Some(value@) || (self.value_of(
                    identifier@,
                ) is None && (default matches Some(d) && value@ == d@)),
                Err(message) => {
                    &&& self.value_of(identifier@) is None
                    &&& default is None
                    &&& message@ == "Property `"@ + identifier@
                        + "` is missing a definition."@
                },
            },
    {
        match self.parse(identifier) {
            Some(value) => Ok(value),
            None => match default {
                Some(d) => Ok(d),
                None => Err(
                    String::from_str("Property `").concat(identifier).concat(
                        "` is missing a definition.",
                    ),
                ),
            },
        }
    }
}

} // verus!

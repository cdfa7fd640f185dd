//! The k-anonymity password check: hash the password, ask the service for
//! every hash that shares the first five characters, and look for the rest
//! among what comes back.

use sha1::{Digest, Sha1};
use vstd::prelude::*;
use vstd::string::{StrSliceExecFns, StringExecFns};
use vstd::utf8::encode_utf8;
use crate::client::HaveIBeenPwned;
use crate::error::HibpError;
use crate::hex::{hex_upper, to_hex_upper};
use crate::request::{is_success, Endpoint, Request};
use crate::text::{
    ascii_upper, chars_of, decimal_text, find_char, is_digit, lemma_ascii_upper_again,
    lemma_decimal_text, lemma_lines_of_line_and_rest, lemma_position_contains, lemma_position_is,
    lines, next_line, parse_decimal, parse_u64, position, same_ignoring_ascii_case, string_of,
    to_ascii_upper, without_cr,
};

verus! {

/// A password hash of a range and how often it occurs in breaches.
#[derive(Debug, Clone)]
pub struct PwnedPassword {
    /// The hash without the prefix that the range was asked for.
    pub hash_suffix: String,
    /// Number of times this password has appeared in breaches.
    pub count: u64,
}

/// One entry of a range as plain values.
pub ghost struct HashRangeEntry {
    pub hash_suffix: Seq<char>,
    pub count: u64,
}

impl View for PwnedPassword {
    type V = HashRangeEntry;

    open spec fn view(&self) -> HashRangeEntry {
        HashRangeEntry { hash_suffix: self.hash_suffix@, count: self.count }
    }
}

impl DeepView for PwnedPassword {
    type V = HashRangeEntry;

    open spec fn deep_view(&self) -> HashRangeEntry {
        self@
    }
}

/// How many characters of a hash go to the service.
pub const PREFIX_LEN: usize = 5;

/// The count that the text of a count field stands for: the number that it
/// writes, and 0 where it writes none.
pub open spec fn count_of(field: Seq<char>) -> u64 {
    match parse_u64(field) {
        Some(count) => count,
        None => 0,
    }
}

/// The entry that one line of a range stands for. The suffix is what comes
/// before the first colon, or the whole line if it has none. The count is
/// what stands between the first colon and the next, or the end of the line,
/// read as a number; it is 0 where that is no number and where the line has
/// no colon.
pub open spec fn parse_entry(line: Seq<char>) -> HashRangeEntry {
    let colon = position(line, ':') as int;
    if colon >= line.len() {
        HashRangeEntry { hash_suffix: line, count: 0 }
    } else {
        let rest = line.skip(colon + 1);
        HashRangeEntry {
            hash_suffix: line.take(colon),
            count: count_of(rest.take(position(rest, ':') as int)),
        }
    }
}

/// The entries that the body of a range answer stands for: one for each of
/// its lines, in their order.
pub open spec fn parse_range(body: Seq<char>) -> Seq<HashRangeEntry> {
    lines(body).map_values(|line: Seq<char>| parse_entry(line))
}

/// Whether an entry's suffix is the wanted one. Both are brought to upper
/// case before they are compared, so that the case in which either side
/// writes its hexadecimal digits never makes them differ.
pub open spec fn suffix_matches(entry_suffix: Seq<char>, wanted: Seq<char>) -> bool {
    same_ignoring_ascii_case(entry_suffix, wanted)
}

/// The count of the first of `entries` whose suffix matches `suffix`; 0 where
/// there is none.
pub open spec fn count_for(entries: Seq<HashRangeEntry>, suffix: Seq<char>) -> u64
    decreases entries.len(),
{
    if entries.len() == 0 {
        0
    } else if suffix_matches(entries[0].hash_suffix, suffix) {
        entries[0].count
    } else {
        count_for(entries.drop_first(), suffix)
    }
}

/// The entry that the line `chars[from..to]` stands for.
pub fn parse_line(chars: &Vec<char>, from: usize, to: usize) -> (entry: PwnedPassword)
    requires
        from <= to <= chars.len(),
    ensures
        entry@ == parse_entry(chars@.subrange(from as int, to as int)),
{
    let ghost line = chars@.subrange(from as int, to as int);
    let colon = find_char(chars, ':', from, to);
    if colon >= to {
        PwnedPassword { hash_suffix: string_of(chars, from, to), count: 0 }
    } else {
        let next = find_char(chars, ':', colon + 1, to);
        proof {
            let rest = line.skip(colon - from + 1);
            assert(rest == chars@.subrange(colon + 1, to as int));
            assert(rest.take(next - (colon + 1)) == chars@.subrange(colon + 1, next as int));
            assert(line.take(colon - from) == chars@.subrange(from as int, colon as int));
        }
        let count: u64 = match parse_decimal(chars, colon + 1, next) {
            Some(count) => count,
            None => 0,
        };
        PwnedPassword { hash_suffix: string_of(chars, from, colon), count }
    }
}

/// The entries that the body of a range answer holds. No line makes the
/// whole body fail: what cannot be read as a count counts as 0.
pub fn parse_range_response(body: &str) -> (entries: Vec<PwnedPassword>)
    ensures
        entries.deep_view() == parse_range(body@),
{
    let chars = chars_of(body);
    let mut entries: Vec<PwnedPassword> = Vec::new();
    let mut from: usize = 0;
    let ghost mut done: Seq<Seq<char>> = Seq::empty();
    assert(chars@.skip(0) == chars@);
    while from < chars.len()
        invariant
            from <= chars.len(),
            lines(chars@) == done + lines(chars@.skip(from as int)),
            entries.len() == done.len(),
            forall|k: int| 0 <= k < done.len() ==> (#[trigger] entries[k])@ == parse_entry(done[k]),
        decreases chars.len() - from,
    {
        let (end, next) = next_line(&chars, from);
        let entry = parse_line(&chars, from, end);
        entries.push(entry);
        proof {
            let line = chars@.subrange(from as int, end as int);
            assert(done + (seq![line] + lines(chars@.skip(next as int))) == done.push(line) + lines(
                chars@.skip(next as int),
            ));
            done = done.push(line);
        }
        from = next;
    }
    assert(lines(chars@.skip(from as int)) == Seq::<Seq<char>>::empty());
    assert(lines(chars@) == done);
    assert(entries.deep_view() =~= parse_range(body@));
    entries
}

/// The count of the first of `entries` whose suffix matches `suffix`, whatever
/// the case of either; 0 where there is none.
pub fn count_for_suffix(entries: &Vec<PwnedPassword>, suffix: &str) -> (count: u64)
    ensures
        count == count_for(entries.deep_view(), suffix@),
{
    let wanted = to_ascii_upper(suffix);
    let mut i: usize = 0;
    assert(entries.deep_view().skip(0) == entries.deep_view());
    while i < entries.len()
        invariant
            i <= entries.len(),
            wanted@ == ascii_upper(suffix@),
            count_for(entries.deep_view(), suffix@) == count_for(
                entries.deep_view().skip(i as int),
                suffix@,
            ),
        decreases entries.len() - i,
    {
        let ghost rest = entries.deep_view().skip(i as int);
        assert(rest[0] == entries[i as int]@);
        assert(rest.drop_first() == entries.deep_view().skip(i + 1));
        let found = to_ascii_upper(entries[i].hash_suffix.as_str());
        if found == wanted {
            return entries[i].count;
        }
        i = i + 1;
    }
    0
}

/// The entries of a range, from the answer to a range query: the entries
/// that the body holds where the status is a success, and the status as
/// the error where it is not.
pub fn range_entries(status: u16, body: &str) -> (entries: Result<Vec<PwnedPassword>, HibpError>)
    ensures
        is_success(status) ==> entries is Ok && entries->Ok_0.deep_view() == parse_range(body@),
        !is_success(status) ==> entries is Err && entries->Err_0 == HibpError::Status(status),
{
    if 200 <= status && status < 300 {
        Ok(parse_range_response(body))
    } else {
        Err(HibpError::Status(status))
    }
}

/// The SHA-1 digest of `data`.
pub uninterp spec fn sha1(data: Seq<u8>) -> Seq<u8>;

/// `sha1::Sha1`, fed `data` in one piece through `Digest::update` and closed
/// with `Digest::finalize`: the 20 bytes of the SHA-1 digest of `data`.
#[verifier::external_body]
pub(crate) fn sha1_digest(data: &[u8]) -> (digest: [u8; 20])
    ensures
        digest@ == sha1(data@),
{
    let mut hasher = Sha1::new();
    hasher.update(data);
    hasher.finalize().into()
}

/// The hash of `password` as the service writes it: the SHA-1 digest of the
/// password's UTF-8 bytes, untrimmed, in upper-case hexadecimal.
pub open spec fn password_hash(password: Seq<char>) -> Seq<char> {
    hex_upper(sha1(encode_utf8(password)))
}

/// The hash that `digest` is written as, split where a range query splits
/// it: the five characters that go to the service, and the 35 that stay.
pub fn split_digest(digest: &[u8; 20]) -> (parts: (String, String))
    ensures
        parts.0@ == hex_upper(digest@).take(PREFIX_LEN as int),
        parts.1@ == hex_upper(digest@).skip(PREFIX_LEN as int),
        parts.0@.len() == 5,
        parts.1@.len() == 35,
{
    let hash = to_hex_upper(digest.as_slice());
    let chars = chars_of(hash.as_str());
    assert(chars@.len() == 40);
    let prefix = string_of(&chars, 0, PREFIX_LEN);
    let suffix = string_of(&chars, PREFIX_LEN, chars.len());
    (prefix, suffix)
}

/// The hash of `password`, split where a range query splits it.
pub fn hash_password(password: &str) -> (parts: (String, String))
    ensures
        parts.0@ == password_hash(password@).take(PREFIX_LEN as int),
        parts.1@ == password_hash(password@).skip(PREFIX_LEN as int),
        parts.0@.len() == 5,
        parts.1@.len() == 35,
{
    let digest = sha1_digest(password.as_bytes());
    split_digest(&digest)
}

/// A password check under way: the range query to send, and the rest of the
/// password's hash to look for in the answer.
#[derive(Debug, Clone)]
pub struct PasswordCheck {
    /// The range query for the hash's prefix.
    pub request: Request,
    /// The hash without its prefix.
    pub hash_suffix: String,
}

impl PasswordCheck {
    /// How often the password occurs in breaches, from the answer to the
    /// range query: the count of the first entry with the password's suffix,
    /// in whatever case the answer writes it, and 0, not an error, where no
    /// entry has it. An entry with the count 0, such as padding, reads as not
    /// found. A status that is no success fails with that status.
    pub fn count(&self, status: u16, body: &str) -> (count: Result<u64, HibpError>)
        ensures
            is_success(status) ==> count == Ok::<u64, HibpError>(
                count_for(parse_range(body@), self.hash_suffix@),
            ),
            !is_success(status) ==> count == Err::<u64, HibpError>(HibpError::Status(status)),
    {
        match range_entries(status, body) {
            Ok(entries) => Ok(count_for_suffix(&entries, self.hash_suffix.as_str())),
            Err(e) => Err(e),
        }
    }
}

impl HaveIBeenPwned {
    /// The request for the hashes that start with `hash_prefix`. A prefix that is
    /// not exactly five characters long is refused before anything else is
    /// looked at; what the five characters are is left to the service. Then the
    /// request fails when the API key or the user agent cannot be sent as a
    /// header's value.
    pub fn search_password_range(&self, hash_prefix: &str) -> (request: Result<Request, HibpError>)
        ensures
            hash_prefix@.len() != PREFIX_LEN ==> request is Err && request->Err_0
                == HibpError::InvalidHashPrefix,
            hash_prefix@.len() == PREFIX_LEN && !self.has_valid_headers() ==> request is Err
                && request->Err_0 == HibpError::InvalidHeaderValue,
            hash_prefix@.len() == PREFIX_LEN && self.has_valid_headers() ==> request is Ok
                && request->Ok_0@ == self.request_for(Endpoint::PasswordRange, hash_prefix@),
    {
        if hash_prefix.unicode_len() != PREFIX_LEN {
            return Err(HibpError::InvalidHashPrefix);
        }
        self.request(Endpoint::PasswordRange, hash_prefix)
    }

    /// The request for the hashes that start with `hash_prefix`, with padding:
    /// the same as `search_password_range`, and one header more, which asks the
    /// service to mix decoy entries with the count 0 into its answer.
    pub fn search_password_range_padded(&self, hash_prefix: &str) -> (request: Result<
        Request,
        HibpError,
    >)
        ensures
            hash_prefix@.len() != PREFIX_LEN ==> request is Err && request->Err_0
                == HibpError::InvalidHashPrefix,
            hash_prefix@.len() == PREFIX_LEN && !self.has_valid_headers() ==> request is Err
                && request->Err_0 == HibpError::InvalidHeaderValue,
            hash_prefix@.len() == PREFIX_LEN && self.has_valid_headers() ==> request is Ok
                && request->Ok_0@ == self.request_for(Endpoint::PasswordRangePadded, hash_prefix@),
    {
        if hash_prefix.unicode_len() != PREFIX_LEN {
            return Err(HibpError::InvalidHashPrefix);
        }
        self.request(Endpoint::PasswordRangePadded, hash_prefix)
    }

    /// The check of `password`: the range query for the first five characters
    /// of its hash, and the other 35 to look for in the answer. Only the
    /// prefix goes to the service. Fails when the API key or the user agent
    /// cannot be sent as a header's value.
    pub fn check_password(&self, password: &str) -> (check: Result<PasswordCheck, HibpError>)
        ensures
            !self.has_valid_headers() ==> check is Err && check->Err_0
                == HibpError::InvalidHeaderValue,
            self.has_valid_headers() ==> check is Ok && check->Ok_0.request@ == self.request_for(
                Endpoint::PasswordRange,
                password_hash(password@).take(PREFIX_LEN as int),
            ) && check->Ok_0.hash_suffix@ == password_hash(password@).skip(PREFIX_LEN as int),
    {
        let (prefix, hash_suffix) = hash_password(password);
        match self.search_password_range(prefix.as_str()) {
            Ok(request) => Ok(PasswordCheck { request, hash_suffix }),
            Err(e) => Err(e),
        }
    }

    /// The check of `password` with padding: the same as `check_password`, with
    /// the padded range query.
    pub fn check_password_padded(&self, password: &str) -> (check: Result<PasswordCheck, HibpError>)
        ensures
            !self.has_valid_headers() ==> check is Err && check->Err_0
                == HibpError::InvalidHeaderValue,
            self.has_valid_headers() ==> check is Ok && check->Ok_0.request@ == self.request_for(
                Endpoint::PasswordRangePadded,
                password_hash(password@).take(PREFIX_LEN as int),
            ) && check->Ok_0.hash_suffix@ == password_hash(password@).skip(PREFIX_LEN as int),
    {
        let (prefix, hash_suffix) = hash_password(password);
        match self.search_password_range_padded(prefix.as_str()) {
            Ok(request) => Ok(PasswordCheck { request, hash_suffix }),
            Err(e) => Err(e),
        }
    }
}

/// A line without a colon stands for the whole line as the suffix, with the
/// count 0.
pub proof fn lemma_entry_without_colon(line: Seq<char>)
    requires
        !line.contains(':'),
    ensures
        parse_entry(line) == (HashRangeEntry { hash_suffix: line, count: 0 }),
{
    lemma_position_contains(line, ':');
}

/// A line made of a suffix, a colon and a count field stands for that suffix
/// and the count that the field writes: 0 where the field writes no number.
pub proof fn lemma_entry_with_count(suffix: Seq<char>, field: Seq<char>)
    requires
        !suffix.contains(':'),
        !field.contains(':'),
    ensures
        parse_entry(suffix + seq![':'] + field) == (HashRangeEntry {
            hash_suffix: suffix,
            count: count_of(field),
        }),
        parse_u64(field) is None ==> parse_entry(suffix + seq![':'] + field).count == 0,
{
    let line = suffix + seq![':'] + field;
    lemma_position_contains(field, ':');
    assert forall|j: int| 0 <= j < suffix.len() implies line[j] != ':' by {
        assert(line[j] == suffix[j]);
        assert(suffix.contains(suffix[j]));
    }
    lemma_position_is(line, ':', suffix.len() as int);
    let rest = line.skip(suffix.len() as int + 1);
    assert(rest == field);
    assert(line.take(suffix.len() as int) == suffix);
    assert(rest.take(field.len() as int) == field);
}

/// A well-formed line, a suffix, a colon and a count in decimal, stands for
/// exactly that suffix and that count.
pub proof fn lemma_entry_well_formed(suffix: Seq<char>, count: u64)
    requires
        !suffix.contains(':'),
    ensures
        parse_entry(suffix + seq![':'] + decimal_text(count as nat)) == (HashRangeEntry {
            hash_suffix: suffix,
            count,
        }),
{
    let field = decimal_text(count as nat);
    lemma_decimal_text(count as nat);
    assert(!field.contains(':')) by {
        if field.contains(':') {
            let j = choose|j: int| 0 <= j < field.len() && field[j] == ':';
            assert(is_digit(field[j]));
        }
    }
    lemma_entry_with_count(suffix, field);
}

/// A body is read line by line: it holds as many entries as lines, and each
/// entry depends on its own line alone, whatever the other lines hold.
pub proof fn lemma_range_line_by_line(body: Seq<char>)
    ensures
        parse_range(body).len() == lines(body).len(),
        forall|i: int|
            0 <= i < lines(body).len() ==> #[trigger] parse_range(body)[i] == parse_entry(
                lines(body)[i],
            ),
{
}

/// A body that starts with a line and a line feed holds the entry of that
/// line, and then the entries of the rest of the body: a line that cannot be
/// read gives an entry with the count 0 and leaves the entries after it as
/// they are.
pub proof fn lemma_range_of_line_and_rest(line: Seq<char>, rest: Seq<char>)
    requires
        !line.contains('\n'),
    ensures
        parse_range(line + seq!['\n'] + rest) == seq![parse_entry(without_cr(line))] + parse_range(
            rest,
        ),
{
    lemma_lines_of_line_and_rest(line, rest);
    assert(parse_range(line + seq!['\n'] + rest) =~= seq![parse_entry(without_cr(line))]
        + parse_range(rest));
}

/// Where every entry whose suffix matches has the count 0, and where no
/// entry's suffix matches, the count is 0.
pub proof fn lemma_count_absent(entries: Seq<HashRangeEntry>, suffix: Seq<char>)
    requires
        forall|i: int|
            0 <= i < entries.len() && suffix_matches((#[trigger] entries[i]).hash_suffix, suffix)
                ==> entries[i].count == 0,
    ensures
        count_for(entries, suffix) == 0,
    decreases entries.len(),
{
    if entries.len() > 0 {
        let rest = entries.drop_first();
        assert forall|i: int|
            0 <= i < rest.len() && suffix_matches(
                (#[trigger] rest[i]).hash_suffix,
                suffix,
            ) implies rest[i].count == 0 by {
            assert(rest[i] == entries[i + 1]);
        }
        lemma_count_absent(rest, suffix);
        assert(suffix_matches(entries[0].hash_suffix, suffix) ==> entries[0].count == 0);
    }
}

/// The count is that of the first entry whose suffix matches.
pub proof fn lemma_count_first_match(entries: Seq<HashRangeEntry>, suffix: Seq<char>, k: int)
    requires
        0 <= k < entries.len(),
        suffix_matches(entries[k].hash_suffix, suffix),
        forall|j: int| 0 <= j < k ==> !suffix_matches((#[trigger] entries[j]).hash_suffix, suffix),
    ensures
        count_for(entries, suffix) == entries[k].count,
    decreases entries.len(),
{
    if k > 0 {
        let rest = entries.drop_first();
        assert(!suffix_matches(entries[0].hash_suffix, suffix));
        assert forall|j: int| 0 <= j < k - 1 implies !suffix_matches(
            (#[trigger] rest[j]).hash_suffix,
            suffix,
        ) by {
            assert(rest[j] == entries[j + 1]);
        }
        assert(rest[k - 1] == entries[k]);
        lemma_count_first_match(rest, suffix, k - 1);
    }
}

/// An entry whose suffix does not match, a decoy or not, changes no count,
/// wherever among the entries it stands.
pub proof fn lemma_count_ignores_other_suffixes(
    before: Seq<HashRangeEntry>,
    other: HashRangeEntry,
    after: Seq<HashRangeEntry>,
    suffix: Seq<char>,
)
    requires
        !suffix_matches(other.hash_suffix, suffix),
    ensures
        count_for(before + seq![other] + after, suffix) == count_for(before + after, suffix),
    decreases before.len(),
{
    let with = before + seq![other] + after;
    let without = before + after;
    if before.len() == 0 {
        assert(with.drop_first() == after);
        assert(without == after);
        assert(with[0] == other);
    } else {
        assert(with[0] == before[0] && without[0] == before[0]);
        assert(with.drop_first() == before.drop_first() + seq![other] + after);
        assert(without.drop_first() == before.drop_first() + after);
        lemma_count_ignores_other_suffixes(before.drop_first(), other, after, suffix);
    }
}

/// Case alone never makes a suffix differ: a suffix matches its own upper
/// case, and suffixes that are the same but for case match the same entries.
pub proof fn lemma_suffix_matches_any_case(a: Seq<char>, b: Seq<char>, entry_suffix: Seq<char>)
    requires
        same_ignoring_ascii_case(a, b),
    ensures
        suffix_matches(a, b),
        suffix_matches(ascii_upper(a), a),
        suffix_matches(entry_suffix, a) == suffix_matches(entry_suffix, b),
{
    lemma_ascii_upper_again(a);
}

/// The count does not depend on the case in which the wanted suffix is
/// written.
pub proof fn lemma_count_ignores_case_of_suffix(
    entries: Seq<HashRangeEntry>,
    a: Seq<char>,
    b: Seq<char>,
)
    requires
        same_ignoring_ascii_case(a, b),
    ensures
        count_for(entries, a) == count_for(entries, b),
    decreases entries.len(),
{
    if entries.len() > 0 {
        lemma_suffix_matches_any_case(a, b, entries[0].hash_suffix);
        lemma_count_ignores_case_of_suffix(entries.drop_first(), a, b);
    }
}

/// The count does not depend on the case in which the answer writes its
/// suffixes: entries that differ from others only in the case of their
/// suffixes give the same count.
pub proof fn lemma_count_ignores_case_of_entries(
    entries: Seq<HashRangeEntry>,
    others: Seq<HashRangeEntry>,
    suffix: Seq<char>,
)
    requires
        entries.len() == others.len(),
        forall|i: int|
            0 <= i < entries.len() ==> (#[trigger] entries[i]).count == others[i].count
                && same_ignoring_ascii_case(entries[i].hash_suffix, others[i].hash_suffix),
    ensures
        count_for(entries, suffix) == count_for(others, suffix),
    decreases entries.len(),
{
    if entries.len() > 0 {
        let rest = entries.drop_first();
        let other_rest = others.drop_first();
        assert(entries[0].count == others[0].count && same_ignoring_ascii_case(
            entries[0].hash_suffix,
            others[0].hash_suffix,
        ));
        assert forall|i: int| 0 <= i < rest.len() implies (#[trigger] rest[i]).count
            == other_rest[i].count && same_ignoring_ascii_case(
            rest[i].hash_suffix,
            other_rest[i].hash_suffix,
        ) by {
            assert(rest[i] == entries[i + 1]);
            assert(other_rest[i] == others[i + 1]);
        }
        lemma_count_ignores_case_of_entries(rest, other_rest, suffix);
    }
}

} // verus!

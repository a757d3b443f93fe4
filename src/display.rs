//! Text shown to people: phone numbers, JIDs, message previews and times.
use vstd::prelude::*;
use vstd::string::*;

verus! {

broadcast use vstd::string::group_string_axioms;

/// `+CC AA PPPPP-PPPP` (or `PPPP-PPPP`) for a Brazilian number of 12 or 13
/// characters starting with 55; `+` and the number for any other longer than 10
/// characters; the number unchanged otherwise.
pub open spec fn phone_display(p: Seq<char>) -> Seq<char> {
    if p.len() >= 12 && p[0] == '5' && p[1] == '5' && (p.len() == 12 || p.len() == 13) {
        let split = if p.len() == 13 { 9 } else { 8 };
        seq!['+'] + p.subrange(0, 2) + seq![' '] + p.subrange(2, 4) + seq![' '] + p.subrange(4, split) + seq!['-'] + p.subrange(split, p.len() as int)
    } else if p.len() > 10 {
        seq!['+'] + p
    } else {
        p
    }
}

/// Formats a phone number for reading; see `phone_display`.
pub fn format_phone_number(phone: &str) -> (r: String)
    ensures
        r@ == phone_display(phone@),
{
    proof {
        reveal_strlit("+");
        reveal_strlit(" ");
        reveal_strlit("-");
    }
    let n = phone.unicode_len();
    if n >= 12 && (n == 12 || n == 13) && phone.get_char(0) == '5' && phone.get_char(1) == '5' {
        let split: usize = if n == 13 { 9 } else { 8 };
        let r = String::from_str("+").concat(phone.substring_char(0, 2)).concat(" ").concat(phone.substring_char(2, 4)).concat(" ").concat(
            phone.substring_char(4, split),
        ).concat("-").concat(phone.substring_char(split, n));
        assert(r@ =~= phone_display(phone@));
        r
    } else if n > 10 {
        let r = String::from_str("+").concat(phone);
        assert(r@ =~= phone_display(phone@));
        r
    } else {
        phone.to_owned()
    }
}

/// `pat` occurs in `s` at `i`.
pub open spec fn occurs_at(s: Seq<char>, pat: Seq<char>, i: int) -> bool {
    0 <= i && i + pat.len() <= s.len() && s.subrange(i, i + pat.len()) == pat
}

pub open spec fn has_sub(s: Seq<char>, pat: Seq<char>) -> bool {
    exists|i: int| occurs_at(s, pat, i)
}

fn contains_text(s: &str, pat: &str) -> (r: bool)
    ensures
        r == has_sub(s@, pat@),
{
    let n = s.unicode_len();
    let m = pat.unicode_len();
    if m > n {
        assert forall|i: int| !occurs_at(s@, pat@, i) by {}
        return false;
    }
    if m == 0 {
        assert(s@.subrange(0, 0) =~= pat@);
        assert(occurs_at(s@, pat@, 0));
        return true;
    }
    let p = pat.to_owned();
    let mut i: usize = 0;
    while i <= n - m
        invariant
            n == s@.len(),
            m == pat@.len(),
            0 < m <= n,
            p@ == pat@,
            i <= n - m + 1,
            forall|k: int| 0 <= k < i ==> !occurs_at(s@, pat@, k),
        decreases n - m + 1 - i,
    {
        let part = s.substring_char(i, i + m).to_owned();
        if <String as PartialEq>::eq(&part, &p) {
            assert(occurs_at(s@, pat@, i as int));
            return true;
        }
        i += 1;
    }
    assert forall|k: int| !occurs_at(s@, pat@, k) by {
        if 0 <= k && k + pat@.len() <= s@.len() {
            assert(k < i);
        }
    }
    false
}

/// The characters before the first `@`, or all of them.
pub open spec fn before_at(s: Seq<char>) -> Seq<char>
    decreases s.len(),
{
    if s.len() == 0 {
        s
    } else if s[0] == '@' {
        Seq::empty()
    } else {
        seq![s[0]] + before_at(s.drop_first())
    }
}

pub open spec fn all_ascii_digits(s: Seq<char>) -> bool {
    forall|i: int| 0 <= i < s.len() ==> '0' <= #[trigger] s[i] <= '9'
}

/// How a JID is shown: a phone JID as its formatted number, a group JID as is,
/// a linked-device id as `(LID)`, a user LID as `(U)`, anything else as is.
pub open spec fn jid_display(jid: Seq<char>) -> Seq<char> {
    let phone = before_at(jid);
    if has_sub(jid, "@s.whatsapp.net"@) && phone.len() > 0 && all_ascii_digits(phone) {
        phone_display(phone)
    } else if has_sub(jid, "@g.us"@) {
        jid
    } else if (jid.len() >= 2 && jid[0] == '2' && jid[1] == ':') || (!jid.contains('@') && jid.contains(':')) {
        "(LID)"@
    } else if has_sub(jid, "@lid"@) {
        "(U)"@
    } else {
        jid
    }
}

fn prefix_before_at(s: &str) -> (r: String)
    ensures
        r@ == before_at(s@),
{
    let n = s.unicode_len();
    let mut i: usize = 0;
    while i < n && s.get_char(i) != '@'
        invariant
            n == s@.len(),
            i <= n,
            forall|k: int| 0 <= k < i ==> s@[k] != '@',
        decreases n - i,
    {
        i += 1;
    }
    proof {
        lemma_before_at(s@, i as int);
    }
    s.substring_char(0, i).to_owned()
}

proof fn lemma_before_at(s: Seq<char>, i: int)
    requires
        0 <= i <= s.len(),
        forall|k: int| 0 <= k < i ==> s[k] != '@',
        i < s.len() ==> s[i] == '@',
    ensures
        before_at(s) == s.subrange(0, i),
    decreases s.len(),
{
    if s.len() == 0 {
        assert(s.subrange(0, i) =~= s);
    } else if i == 0 {
        assert(s.subrange(0, i) =~= Seq::<char>::empty());
    } else {
        lemma_before_at(s.drop_first(), i - 1);
        assert(s.subrange(0, i) =~= seq![s[0]] + s.drop_first().subrange(0, i - 1));
    }
}

fn count_char(s: &str, c: char) -> (r: bool)
    ensures
        r == s@.contains(c),
{
    let n = s.unicode_len();
    let mut i: usize = 0;
    while i < n
        invariant
            n == s@.len(),
            i <= n,
            forall|k: int| 0 <= k < i ==> s@[k] != c,
        decreases n - i,
    {
        if s.get_char(i) == c {
            return true;
        }
        i += 1;
    }
    false
}

fn digits_only(s: &str) -> (r: bool)
    ensures
        r == all_ascii_digits(s@),
{
    let n = s.unicode_len();
    let mut i: usize = 0;
    while i < n
        invariant
            n == s@.len(),
            i <= n,
            forall|k: int| 0 <= k < i ==> '0' <= #[trigger] s@[k] <= '9',
        decreases n - i,
    {
        let ch = s.get_char(i);
        if !('0' <= ch && ch <= '9') {
            return false;
        }
        i += 1;
    }
    true
}

/// Formats a JID for display; see `jid_display`.
pub fn format_jid_for_display(jid: &str) -> (r: String)
    ensures
        r@ == jid_display(jid@),
{
    if contains_text(jid, "@s.whatsapp.net") {
        let phone = prefix_before_at(jid);
        if phone.as_str().unicode_len() > 0 && digits_only(phone.as_str()) {
            return format_phone_number(phone.as_str());
        }
    }
    if contains_text(jid, "@g.us") {
        return jid.to_owned();
    }
    let n = jid.unicode_len();
    if (n >= 2 && jid.get_char(0) == '2' && jid.get_char(1) == ':') || (!count_char(jid, '@') && count_char(jid, ':')) {
        return String::from_str("(LID)");
    }
    if contains_text(jid, "@lid") {
        return String::from_str("(U)");
    }
    jid.to_owned()
}

/// The one-line preview of a message: the text for text messages and unknown kinds,
/// a label for media and other kinds.
pub open spec fn preview_of(message_type: Seq<char>, content: Seq<char>) -> Seq<char> {
    if message_type == "text"@ || message_type == "extendedText"@ {
        content
    } else if message_type == "image"@ || message_type == "imageMessage"@ {
        "📷 Image"@
    } else if message_type == "video"@ || message_type == "videoMessage"@ {
        "🎥 Video"@
    } else if message_type == "audio"@ || message_type == "audioMessage"@ {
        "🎵 Audio"@
    } else if message_type == "document"@ || message_type == "documentMessage"@ {
        "📄 Document"@
    } else if message_type == "sticker"@ || message_type == "stickerMessage"@ {
        "🏷️ Sticker"@
    } else if message_type == "location"@ || message_type == "locationMessage"@ {
        "📍 Location"@
    } else if message_type == "contact"@ || message_type == "contactMessage"@ {
        "👤 Contact"@
    } else if message_type == "poll"@ || message_type == "pollCreation"@ {
        "📊 Poll"@
    } else {
        content
    }
}

fn is_text(s: &str, lit: &str) -> (r: bool)
    ensures
        r == (s@ == lit@),
{
    <String as PartialEq>::eq(&s.to_owned(), &lit.to_owned())
}

/// The preview of a message; see `preview_of`.
pub fn format_message_preview(message_type: &str, content: &str) -> (r: String)
    ensures
        r@ == preview_of(message_type@, content@),
{
    let t = message_type;
    if is_text(t, "text") || is_text(t, "extendedText") {
        content.to_owned()
    } else if is_text(t, "image") || is_text(t, "imageMessage") {
        String::from_str("📷 Image")
    } else if is_text(t, "video") || is_text(t, "videoMessage") {
        String::from_str("🎥 Video")
    } else if is_text(t, "audio") || is_text(t, "audioMessage") {
        String::from_str("🎵 Audio")
    } else if is_text(t, "document") || is_text(t, "documentMessage") {
        String::from_str("📄 Document")
    } else if is_text(t, "sticker") || is_text(t, "stickerMessage") {
        String::from_str("🏷️ Sticker")
    } else if is_text(t, "location") || is_text(t, "locationMessage") {
        String::from_str("📍 Location")
    } else if is_text(t, "contact") || is_text(t, "contactMessage") {
        String::from_str("👤 Contact")
    } else if is_text(t, "poll") || is_text(t, "pollCreation") {
        String::from_str("📊 Poll")
    } else {
        content.to_owned()
    }
}

pub open spec fn digit_char(d: nat) -> char {
    ('0' as u8 + d) as char
}

/// The decimal digits of `n`, without leading zeros.
pub open spec fn decimal(n: nat) -> Seq<char>
    decreases n,
{
    if n < 10 {
        seq![digit_char(n)]
    } else {
        decimal(n / 10).push(digit_char(n % 10))
    }
}

/// `n` below 100 as two digits.
pub open spec fn two_digits(n: nat) -> Seq<char> {
    seq![digit_char(n / 10), digit_char(n % 10)]
}

pub open spec fn weekday_name(d: int) -> Seq<char> {
    if d == 0 {
        "Sun"@
    } else if d == 1 {
        "Mon"@
    } else if d == 2 {
        "Tue"@
    } else if d == 3 {
        "Wed"@
    } else if d == 4 {
        "Thu"@
    } else if d == 5 {
        "Fri"@
    } else {
        "Sat"@
    }
}

/// Division that rounds toward zero.
pub open spec fn div_toward_zero(a: int, b: int) -> int {
    if a >= 0 {
        a / b
    } else {
        -((-a) / b)
    }
}

/// How a time `ts` (seconds since the epoch) is shown at time `now`: `HH:MM` (UTC)
/// within the last day, the weekday within the last week, else a year counted in
/// 365-day years.
pub open spec fn timestamp_display(ts: i64, now: i64) -> Seq<char> {
    if 0 <= ts <= now && (now - ts) / 3600 < 24 {
        let secs = ts % 86400;
        two_digits(((secs / 3600) % 24) as nat) + seq![':'] + two_digits(((secs % 3600) / 60) as nat)
    } else if 0 <= ts <= now && (now - ts) / 3600 < 168 {
        weekday_name((ts / 86400 + 4) % 7)
    } else {
        let year = 1970 + div_toward_zero(div_toward_zero(ts as int, 86400), 365);
        if year < 0 {
            seq!['-'] + decimal((-year) as nat)
        } else {
            decimal(year as nat)
        }
    }
}

fn digit_text(d: u64) -> (r: &'static str)
    requires
        d < 10,
    ensures
        r@ == seq![digit_char(d as nat)],
{
    proof {
        reveal_strlit("0"); reveal_strlit("1"); reveal_strlit("2"); reveal_strlit("3"); reveal_strlit("4");
        reveal_strlit("5"); reveal_strlit("6"); reveal_strlit("7"); reveal_strlit("8"); reveal_strlit("9");
    }
    let r = if d == 0 { "0" } else if d == 1 { "1" } else if d == 2 { "2" } else if d == 3 { "3" } else if d == 4 { "4" }
        else if d == 5 { "5" } else if d == 6 { "6" } else if d == 7 { "7" } else if d == 8 { "8" } else { "9" };
    assert(r@ =~= seq![digit_char(d as nat)]);
    r
}

/// `n` in decimal.
pub fn decimal_text(n: u64) -> (r: String)
    ensures
        r@ == decimal(n as nat),
{
    let mut rest = n / 10;
    let mut s = String::from_str(digit_text(n % 10));
    assert(decimal(n as nat) == (if rest == 0 { Seq::<char>::empty() } else { decimal(rest as nat) }) + s@) by {
        if n >= 10 {
            assert(decimal(n as nat) =~= decimal((n / 10) as nat) + seq![digit_char((n % 10) as nat)]);
        } else {
            assert(decimal(n as nat) =~= Seq::<char>::empty() + seq![digit_char((n % 10) as nat)]);
        }
    }
    while rest > 0
        invariant
            decimal(n as nat) == (if rest == 0 { Seq::<char>::empty() } else { decimal(rest as nat) }) + s@,
        decreases rest,
    {
        let d = digit_text(rest % 10);
        let ghost old_s = s@;
        s = String::from_str(d).concat(s.as_str());
        let ghost r0 = rest;
        rest = rest / 10;
        proof {
            if r0 >= 10 {
                assert(decimal(r0 as nat) =~= decimal(rest as nat) + seq![digit_char((r0 % 10) as nat)]);
            } else {
                assert(decimal(r0 as nat) =~= Seq::<char>::empty() + seq![digit_char((r0 % 10) as nat)]);
            }
            assert(s@ =~= seq![digit_char((r0 % 10) as nat)] + old_s);
            assert(decimal(n as nat) =~= (if rest == 0 { Seq::<char>::empty() } else { decimal(rest as nat) }) + s@);
        }
    }
    assert(decimal(n as nat) =~= s@);
    s
}

fn two_digit_text(n: u64) -> (r: String)
    requires
        n < 100,
    ensures
        r@ == two_digits(n as nat),
{
    let r = String::from_str(digit_text(n / 10)).concat(digit_text(n % 10));
    assert(r@ =~= two_digits(n as nat));
    r
}

/// Formats a message time as seen at `now`; see `timestamp_display`.
pub fn format_timestamp_at(timestamp: i64, now: i64) -> (r: String)
    ensures
        r@ == timestamp_display(timestamp, now),
{
    proof {
        reveal_strlit(":");
        reveal_strlit("-");
    }
    if 0 <= timestamp && timestamp <= now && (now - timestamp) / 3600 < 24 {
        let secs = timestamp % 86400;
        let h = ((secs / 3600) % 24) as u64;
        let m = ((secs % 3600) / 60) as u64;
        let r = two_digit_text(h).concat(":").concat(two_digit_text(m).as_str());
        assert(r@ =~= timestamp_display(timestamp, now));
        r
    } else if 0 <= timestamp && timestamp <= now && (now - timestamp) / 3600 < 168 {
        let d = (timestamp / 86400 + 4) % 7;
        let name = if d == 0 { "Sun" } else if d == 1 { "Mon" } else if d == 2 { "Tue" } else if d == 3 { "Wed" }
            else if d == 4 { "Thu" } else if d == 5 { "Fri" } else { "Sat" };
        String::from_str(name)
    } else {
        let t = timestamp as i128;
        let days: i128 = if t >= 0 { t / 86400 } else { -((-t) / 86400) };
        let years: i128 = if days >= 0 { days / 365 } else { -((-days) / 365) };
        let year: i128 = 1970 + years;
        assert(year == 1970 + div_toward_zero(div_toward_zero(timestamp as int, 86400), 365));
        if year < 0 {
            let r = String::from_str("-").concat(decimal_text((-year) as u64).as_str());
            assert(r@ =~= timestamp_display(timestamp, now));
            r
        } else {
            decimal_text(year as u64)
        }
    }
}

/// Formats a message time as seen now.
pub fn format_timestamp(timestamp: i64) -> (r: String)
    ensures
        exists|now: i64| r@ == timestamp_display(timestamp, now),
{
    let now = crate::clock::chrono_timestamp();
    format_timestamp_at(timestamp, now)
}

} // verus!

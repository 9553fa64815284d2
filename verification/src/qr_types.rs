//! QR payload builders for common content types.
//!
//! Each builder returns a UTF-8 string following the de-facto standards for
//! QR-encoded data (wifi, vCard, mailto, tel:, geo:, vEvent, etc.). Plain text
//! and URLs are passed through without escaping.
use vstd::prelude::*;
use vstd::utf8::encode_utf8;

use crate::text::{
    ends_with, lemma_begins, lemma_begins_extend, lemma_empty_occurs, lemma_four_pieces,
    lemma_occurs_at_end, lemma_occurs_extend, lemma_occurs_prepend,
    begins_with, chars_of, first_and_last_word, first_word, is_blank, is_blank_text, last_word,
    occurs, occurs_in, push_trimmed, starts, trim, trimmed,
};

verus! {

// ---------------------------------------------------------------------------
// Content kinds and their labels

#[derive(Debug, Clone, Copy, PartialEq, Eq, Structural)]
pub enum QrKind {
    Text,
    Url,
    Wifi,
    VCard,
    Email,
    Phone,
    Sms,
    Geo,
    Event,
    Crypto,
}

pub open spec fn kind_label(k: QrKind) -> Seq<char> {
    match k {
        QrKind::Text => "Text"@,
        QrKind::Url => "URL"@,
        QrKind::Wifi => "Wi-Fi"@,
        QrKind::VCard => "Contact (vCard)"@,
        QrKind::Email => "Email"@,
        QrKind::Phone => "Phone"@,
        QrKind::Sms => "SMS"@,
        QrKind::Geo => "Location"@,
        QrKind::Event => "Calendar event"@,
        QrKind::Crypto => "Crypto payment"@,
    }
}

impl QrKind {
    /// Every content kind, in the order the selector shows them.
    pub fn all() -> (v: Vec<QrKind>)
        ensures
            v@ == seq![
                QrKind::Text,
                QrKind::Url,
                QrKind::Wifi,
                QrKind::VCard,
                QrKind::Email,
                QrKind::Phone,
                QrKind::Sms,
                QrKind::Geo,
                QrKind::Event,
                QrKind::Crypto,
            ],
    {
        vec![
            QrKind::Text,
            QrKind::Url,
            QrKind::Wifi,
            QrKind::VCard,
            QrKind::Email,
            QrKind::Phone,
            QrKind::Sms,
            QrKind::Geo,
            QrKind::Event,
            QrKind::Crypto,
        ]
    }

    pub fn label(self) -> (r: &'static str)
        ensures
            r@ == kind_label(self),
    {
        match self {
            QrKind::Text => "Text",
            QrKind::Url => "URL",
            QrKind::Wifi => "Wi-Fi",
            QrKind::VCard => "Contact (vCard)",
            QrKind::Email => "Email",
            QrKind::Phone => "Phone",
            QrKind::Sms => "SMS",
            QrKind::Geo => "Location",
            QrKind::Event => "Calendar event",
            QrKind::Crypto => "Crypto payment",
        }
    }
}

#[derive(Debug, Clone, Copy, PartialEq, Eq, Structural)]
pub enum WifiSecurity {
    Wpa,
    Wep,
    /// "nopass" — open network
    Open,
}

pub open spec fn security_label(s: WifiSecurity) -> Seq<char> {
    match s {
        WifiSecurity::Wpa => "WPA / WPA2"@,
        WifiSecurity::Wep => "WEP"@,
        WifiSecurity::Open => "Open (no password)"@,
    }
}

/// The `T:` value of a Wi-Fi payload.
pub open spec fn security_token(s: WifiSecurity) -> Seq<char> {
    match s {
        WifiSecurity::Wpa => "WPA"@,
        WifiSecurity::Wep => "WEP"@,
        WifiSecurity::Open => "nopass"@,
    }
}

impl WifiSecurity {
    /// Every security mode, in the order the selector shows them.
    pub fn all() -> (v: Vec<WifiSecurity>)
        ensures
            v@ == seq![WifiSecurity::Wpa, WifiSecurity::Wep, WifiSecurity::Open],
    {
        vec![WifiSecurity::Wpa, WifiSecurity::Wep, WifiSecurity::Open]
    }

    pub fn label(self) -> (r: &'static str)
        ensures
            r@ == security_label(self),
    {
        match self {
            WifiSecurity::Wpa => "WPA / WPA2",
            WifiSecurity::Wep => "WEP",
            WifiSecurity::Open => "Open (no password)",
        }
    }

    pub fn token(self) -> (r: &'static str)
        ensures
            r@ == security_token(self),
    {
        match self {
            WifiSecurity::Wpa => "WPA",
            WifiSecurity::Wep => "WEP",
            WifiSecurity::Open => "nopass",
        }
    }
}

#[derive(Debug, Clone, Copy, PartialEq, Eq, Structural)]
pub enum CryptoKind {
    Bitcoin,
    Ethereum,
}

pub open spec fn crypto_label(k: CryptoKind) -> Seq<char> {
    match k {
        CryptoKind::Bitcoin => "Bitcoin"@,
        CryptoKind::Ethereum => "Ethereum"@,
    }
}

/// The URI scheme of a payment payload.
pub open spec fn crypto_scheme(k: CryptoKind) -> Seq<char> {
    match k {
        CryptoKind::Bitcoin => "bitcoin"@,
        CryptoKind::Ethereum => "ethereum"@,
    }
}

impl CryptoKind {
    /// Every coin, in the order the selector shows them.
    pub fn all() -> (v: Vec<CryptoKind>)
        ensures
            v@ == seq![CryptoKind::Bitcoin, CryptoKind::Ethereum],
    {
        vec![CryptoKind::Bitcoin, CryptoKind::Ethereum]
    }

    pub fn label(self) -> (r: &'static str)
        ensures
            r@ == crypto_label(self),
    {
        match self {
            CryptoKind::Bitcoin => "Bitcoin",
            CryptoKind::Ethereum => "Ethereum",
        }
    }

    pub fn scheme(self) -> (r: &'static str)
        ensures
            r@ == crypto_scheme(self),
    {
        match self {
            CryptoKind::Bitcoin => "bitcoin",
            CryptoKind::Ethereum => "ethereum",
        }
    }
}

impl Default for CryptoKind {
    fn default() -> (r: Self)
        ensures
            r == CryptoKind::Bitcoin,
    {
        CryptoKind::Bitcoin
    }
}

// ---------------------------------------------------------------------------
// Escaping and encoding

/// The characters that have a special meaning in the Wi-Fi and vCard syntax.
pub open spec fn needs_escape(c: char) -> bool {
    c == '\\' || c == ';' || c == ',' || c == '"' || c == ':'
}

pub open spec fn escape_char(c: char) -> Seq<char> {
    if needs_escape(c) {
        seq!['\\', c]
    } else {
        seq![c]
    }
}

/// `s` with a backslash put before each special character.
pub open spec fn escaped(s: Seq<char>) -> Seq<char>
    decreases s.len(),
{
    if s.len() == 0 {
        Seq::empty()
    } else {
        escaped(s.drop_last()) + escape_char(s.last())
    }
}

/// Escape characters that have special meaning in the wifi/vCard URI syntax.
/// We backslash-escape `\`, `;`, `,`, `"` and `:`.
pub fn esc(s: &str) -> (r: String)
    ensures
        r@ == escaped(s@),
{
    let v = chars_of(s);
    let mut out = String::new();
    let mut i: usize = 0;
    while i < v.len()
        invariant
            i <= v.len(),
            out@ == escaped(v@.take(i as int)),
        decreases v.len() - i,
    {
        let c = v[i];
        if c == '\\' || c == ';' || c == ',' || c == '"' || c == ':' {
            out.push('\\');
        }
        out.push(c);
        assert(v@.take(i + 1).drop_last() =~= v@.take(i as int));
        i = i + 1;
        assert(out@ =~= escaped(v@.take(i as int)));
    }
    assert(v@.take(v.len() as int) =~= v@);
    out
}

/// `t` with the backslash removed from before each character it precedes,
/// read from the left.
pub open spec fn unescaped(t: Seq<char>) -> Seq<char>
    decreases t.len(),
{
    if t.len() == 0 {
        Seq::empty()
    } else if t[0] == '\\' && t.len() >= 2 {
        seq![t[1]] + unescaped(t.subrange(2, t.len() as int))
    } else {
        seq![t[0]] + unescaped(t.drop_first())
    }
}

/// The number of special characters in `s`.
pub open spec fn special_count(s: Seq<char>) -> nat
    decreases s.len(),
{
    if s.len() == 0 {
        0
    } else {
        special_count(s.drop_last()) + if needs_escape(s.last()) {
            1nat
        } else {
            0nat
        }
    }
}

proof fn lemma_escaped_concat(a: Seq<char>, b: Seq<char>)
    ensures
        escaped(a + b) == escaped(a) + escaped(b),
    decreases b.len(),
{
    if b.len() == 0 {
        assert(a + b =~= a);
        assert(escaped(a) + escaped(b) =~= escaped(a));
    } else {
        assert((a + b).drop_last() =~= a + b.drop_last());
        assert((a + b).last() == b.last());
        lemma_escaped_concat(a, b.drop_last());
        assert(escaped(a) + escaped(b.drop_last()) + escape_char(b.last()) =~= escaped(a)
            + escaped(b));
    }
}

proof fn lemma_escaped_front(s: Seq<char>)
    requires
        s.len() > 0,
    ensures
        escaped(s) == escape_char(s[0]) + escaped(s.drop_first()),
{
    assert(s =~= seq![s[0]] + s.drop_first());
    lemma_escaped_concat(seq![s[0]], s.drop_first());
    let one = seq![s[0]];
    assert(one.drop_last() =~= Seq::<char>::empty());
    assert(one.last() == s[0]);
    assert(escaped(one.drop_last()) == Seq::<char>::empty());
    assert(escaped(one) =~= escape_char(s[0]));
}

/// Escaping loses nothing: removing the backslashes gives the text back.
pub proof fn law_unescape_escaped(s: Seq<char>)
    ensures
        unescaped(escaped(s)) == s,
    decreases s.len(),
{
    if s.len() == 0 {
    } else {
        lemma_escaped_front(s);
        let rest = escaped(s.drop_first());
        let t = escaped(s);
        law_unescape_escaped(s.drop_first());
        if needs_escape(s[0]) {
            assert(t[0] == '\\' && t[1] == s[0]);
            assert(t.subrange(2, t.len() as int) =~= rest);
        } else {
            assert(t[0] == s[0]);
            assert(t.drop_first() =~= rest);
        }
        assert(seq![s[0]] + s.drop_first() =~= s);
    }
}

/// Escaping adds one character, a backslash, per special character.
pub proof fn law_escaped_length(s: Seq<char>)
    ensures
        escaped(s).len() == s.len() + special_count(s),
    decreases s.len(),
{
    if s.len() > 0 {
        law_escaped_length(s.drop_last());
    }
}

/// Text without special characters is left as it is.
pub proof fn law_escaped_plain_text(s: Seq<char>)
    requires
        forall|i: int| 0 <= i < s.len() ==> !needs_escape(#[trigger] s[i]),
    ensures
        escaped(s) == s,
    decreases s.len(),
{
    if s.len() > 0 {
        assert forall|i: int| 0 <= i < s.drop_last().len() implies !needs_escape(
            #[trigger] s.drop_last()[i],
        ) by {
            assert(s.drop_last()[i] == s[i]);
        }
        law_escaped_plain_text(s.drop_last());
        assert(s.drop_last().push(s.last()) =~= s);
        assert(escaped(s) =~= s);
    }
}

/// `t` is made of backslash escapes, each a backslash followed by one of
/// `\\ ; , " :`, and of other characters than those five.
pub open spec fn escape_form(t: Seq<char>) -> bool
    decreases t.len(),
{
    if t.len() == 0 {
        true
    } else if t[0] == '\\' {
        t.len() >= 2 && (t[1] == '\\' || t[1] == ';' || t[1] == ',' || t[1] == '"' || t[1] == ':')
            && escape_form(t.subrange(2, t.len() as int))
    } else {
        t[0] != ';' && t[0] != ',' && t[0] != '"' && t[0] != ':' && escape_form(t.drop_first())
    }
}

/// No special character is left bare: each of `\\ ; , " :` in an escaped
/// text is escaped by a backslash.
pub proof fn law_escaped_form(s: Seq<char>)
    ensures
        escape_form(escaped(s)),
    decreases s.len(),
{
    if s.len() > 0 {
        lemma_escaped_front(s);
        law_escaped_form(s.drop_first());
        let rest = escaped(s.drop_first());
        let t = escaped(s);
        if needs_escape(s[0]) {
            assert(t.subrange(2, t.len() as int) =~= rest);
        } else {
            assert(t.drop_first() =~= rest);
        }
    }
}

/// The bytes that a URL carries as they are.
pub open spec fn unreserved(b: u8) -> bool {
    (65 <= b <= 90) || (97 <= b <= 122) || (48 <= b <= 57) || b == 45 || b == 95 || b == 46 || b
        == 126
}

/// The upper-case hexadecimal digit for `d`, which is below sixteen.
pub open spec fn hex_char(d: u8) -> char {
    if d < 10 {
        ((48 + d) as u8) as char
    } else {
        ((55 + d) as u8) as char
    }
}

pub open spec fn percent_byte(b: u8) -> Seq<char> {
    if unreserved(b) {
        seq![b as char]
    } else {
        seq!['%', hex_char(b / 16), hex_char(b % 16)]
    }
}

/// `bytes` with every byte but the unreserved ones written as `%XX`.
pub open spec fn percent_encoded(bytes: Seq<u8>) -> Seq<char>
    decreases bytes.len(),
{
    if bytes.len() == 0 {
        Seq::empty()
    } else {
        percent_encoded(bytes.drop_last()) + percent_byte(bytes.last())
    }
}

/// The percent-encoding of the UTF-8 bytes of `s`.
pub open spec fn url_encoded(s: Seq<char>) -> Seq<char> {
    percent_encoded(encode_utf8(s))
}

fn hex_digit(d: u8) -> (c: char)
    requires
        d < 16,
    ensures
        c == hex_char(d),
{
    if d < 10 {
        (48 + d) as char
    } else {
        (55 + d) as char
    }
}

pub fn url_encode(s: &str) -> (r: String)
    ensures
        r@ == url_encoded(s@),
{
    let bytes = s.as_bytes();
    let mut out = String::new();
    let mut i: usize = 0;
    while i < bytes.len()
        invariant
            i <= bytes.len(),
            bytes@ == encode_utf8(s@),
            out@ == percent_encoded(bytes@.take(i as int)),
        decreases bytes.len() - i,
    {
        let b = bytes[i];
        if (65 <= b && b <= 90) || (97 <= b && b <= 122) || (48 <= b && b <= 57) || b == 45 || b
            == 95 || b == 46 || b == 126 {
            out.push(b as char);
        } else {
            out.push('%');
            out.push(hex_digit(b / 16));
            out.push(hex_digit(b % 16));
        }
        assert(bytes@.take(i + 1).drop_last() =~= bytes@.take(i as int));
        i = i + 1;
        assert(out@ =~= percent_encoded(bytes@.take(i as int)));
    }
    assert(bytes@.take(bytes.len() as int) =~= bytes@);
    out
}

/// The characters that end the date of a date-time.
pub open spec fn date_separator(c: char) -> bool {
    c == 'T' || c == ' ' || c == 't'
}

/// What comes before the first date separator of `s` (all of `s` if it has
/// none).
pub open spec fn date_part(s: Seq<char>) -> Seq<char>
    decreases s.len(),
{
    if s.len() == 0 || date_separator(s[0]) {
        Seq::empty()
    } else {
        seq![s[0]] + date_part(s.drop_first())
    }
}

proof fn lemma_date_part(s: Seq<char>, k: int)
    requires
        0 <= k <= s.len(),
        forall|j: int| 0 <= j < k ==> !date_separator(#[trigger] s[j]),
        k == s.len() || date_separator(s[k]),
    ensures
        date_part(s) == s.subrange(0, k),
    decreases k,
{
    if k == 0 {
        assert(s.subrange(0, 0) =~= Seq::<char>::empty());
    } else {
        let t = s.drop_first();
        assert forall|j: int| 0 <= j < k - 1 implies !date_separator(#[trigger] t[j]) by {
            assert(t[j] == s[j + 1]);
        }
        lemma_date_part(t, k - 1);
        assert(seq![s[0]] + t.subrange(0, k - 1) =~= s.subrange(0, k));
    }
}

/// The date of a date-time is what precedes its first `T`, `t` or space:
/// a prefix of the text holding none of them, followed by one of them or by
/// the end of the text.
pub proof fn law_date_part(s: Seq<char>)
    ensures
        date_part(s).len() <= s.len(),
        date_part(s) == s.subrange(0, date_part(s).len() as int),
        forall|i: int|
            0 <= i < date_part(s).len() ==> {
                let c = #[trigger] date_part(s)[i];
                c != 'T' && c != 't' && c != ' '
            },
        date_part(s).len() < s.len() ==> {
            let c = s[date_part(s).len() as int];
            c == 'T' || c == 't' || c == ' '
        },
    decreases s.len(),
{
    if s.len() > 0 && !date_separator(s[0]) {
        law_date_part(s.drop_first());
        let d = date_part(s.drop_first());
        assert(date_part(s) == seq![s[0]] + d);
        assert(seq![s[0]] + d =~= s.subrange(0, d.len() + 1int)) by {
            assert(d =~= s.drop_first().subrange(0, d.len() as int));
        }
        assert forall|i: int| 0 <= i < date_part(s).len() implies {
            let c = #[trigger] date_part(s)[i];
            c != 'T' && c != 't' && c != ' '
        } by {
            if i > 0 {
                assert(date_part(s)[i] == d[i - 1]);
            }
        }
        if date_part(s).len() < s.len() {
            assert(s[date_part(s).len() as int] == s.drop_first()[d.len() as int]);
        }
    } else {
        assert(s.subrange(0, 0) =~= Seq::<char>::empty());
    }
}

/// Accepts "YYYY-MM-DDTHH:MM" or "YYYY-MM-DD HH:MM" and keeps just the date.
pub fn strip_time(s: &str) -> (r: String)
    ensures
        r@ == date_part(s@),
{
    let v = chars_of(s);
    let mut k: usize = 0;
    while k < v.len() && !(v[k] == 'T' || v[k] == ' ' || v[k] == 't')
        invariant
            k <= v.len(),
            forall|j: int| 0 <= j < k ==> !date_separator(#[trigger] v@[j]),
        decreases v.len() - k,
    {
        k = k + 1;
    }
    proof {
        lemma_date_part(v@, k as int);
    }
    let mut out = String::new();
    crate::text::push_range(&mut out, &v, 0, k);
    assert(out@ =~= date_part(s@));
    out
}

// ---------------------------------------------------------------------------
// Parameters of each content kind

pub struct WifiView {
    pub ssid: Seq<char>,
    pub password: Seq<char>,
    pub security: WifiSecurity,
    pub hidden: bool,
}

#[derive(Debug, Clone)]
pub struct WifiParams {
    pub ssid: String,
    pub password: String,
    pub security: WifiSecurity,
    pub hidden: bool,
}

impl View for WifiParams {
    type V = WifiView;

    open spec fn view(&self) -> WifiView {
        WifiView {
            ssid: self.ssid@,
            password: self.password@,
            security: self.security,
            hidden: self.hidden,
        }
    }
}

impl WifiParams {
    /// The view of a form nobody has filled in.
    pub open spec fn default_view() -> WifiView {
        WifiView {
        ssid: Seq::empty(),
        password: Seq::empty(),
        security: WifiSecurity::Wpa,
        hidden: false,
    }
    }
}

impl Default for WifiParams {
    fn default() -> (r: Self)
        ensures
            r@ == WifiParams::default_view(),
    {
        WifiParams {
            ssid: String::new(),
            password: String::new(),
            security: WifiSecurity::Wpa,
            hidden: false,
        }
    }
}

pub struct VCardView {
    pub full_name: Seq<char>,
    pub org: Seq<char>,
    pub title: Seq<char>,
    pub phone: Seq<char>,
    pub email: Seq<char>,
    pub url: Seq<char>,
    pub address: Seq<char>,
    pub note: Seq<char>,
}

#[derive(Debug, Clone)]
pub struct VCardParams {
    pub full_name: String,
    pub org: String,
    pub title: String,
    pub phone: String,
    pub email: String,
    pub url: String,
    pub address: String,
    pub note: String,
}

impl View for VCardParams {
    type V = VCardView;

    open spec fn view(&self) -> VCardView {
        VCardView {
            full_name: self.full_name@,
            org: self.org@,
            title: self.title@,
            phone: self.phone@,
            email: self.email@,
            url: self.url@,
            address: self.address@,
            note: self.note@,
        }
    }
}

impl VCardParams {
    /// The view of a form nobody has filled in.
    pub open spec fn default_view() -> VCardView {
        VCardView {
        full_name: Seq::empty(),
        org: Seq::empty(),
        title: Seq::empty(),
        phone: Seq::empty(),
        email: Seq::empty(),
        url: Seq::empty(),
        address: Seq::empty(),
        note: Seq::empty(),
    }
    }
}

impl Default for VCardParams {
    fn default() -> (r: Self)
        ensures
            r@ == VCardParams::default_view(),
    {
        VCardParams {
            full_name: String::new(),
            org: String::new(),
            title: String::new(),
            phone: String::new(),
            email: String::new(),
            url: String::new(),
            address: String::new(),
            note: String::new(),
        }
    }
}

pub struct EmailView {
    pub to: Seq<char>,
    pub subject: Seq<char>,
    pub body: Seq<char>,
}

#[derive(Debug, Clone)]
pub struct EmailParams {
    pub to: String,
    pub subject: String,
    pub body: String,
}

impl View for EmailParams {
    type V = EmailView;

    open spec fn view(&self) -> EmailView {
        EmailView { to: self.to@, subject: self.subject@, body: self.body@ }
    }
}

impl EmailParams {
    /// The view of a form nobody has filled in.
    pub open spec fn default_view() -> EmailView {
        EmailView { to: Seq::empty(), subject: Seq::empty(), body: Seq::empty() }
    }
}

impl Default for EmailParams {
    fn default() -> (r: Self)
        ensures
            r@ == EmailParams::default_view(),
    {
        EmailParams { to: String::new(), subject: String::new(), body: String::new() }
    }
}

pub struct SmsView {
    pub phone: Seq<char>,
    pub message: Seq<char>,
}

#[derive(Debug, Clone)]
pub struct SmsParams {
    pub phone: String,
    pub message: String,
}

impl View for SmsParams {
    type V = SmsView;

    open spec fn view(&self) -> SmsView {
        SmsView { phone: self.phone@, message: self.message@ }
    }
}

impl SmsParams {
    /// The view of a form nobody has filled in.
    pub open spec fn default_view() -> SmsView {
        SmsView { phone: Seq::empty(), message: Seq::empty() }
    }
}

impl Default for SmsParams {
    fn default() -> (r: Self)
        ensures
            r@ == SmsParams::default_view(),
    {
        SmsParams { phone: String::new(), message: String::new() }
    }
}

pub struct GeoView {
    pub latitude: Seq<char>,
    pub longitude: Seq<char>,
    pub altitude: Option<Seq<char>>,
    pub query: Seq<char>,
}

/// The text of an optional string.
pub open spec fn text_of(o: Option<String>) -> Option<Seq<char>> {
    match o {
        Some(s) => Some(s@),
        None => None,
    }
}

#[derive(Debug, Clone)]
pub struct GeoParams {
    pub latitude: String,
    pub longitude: String,
    pub altitude: Option<String>,
    /// optional label for the location
    pub query: String,
}

impl View for GeoParams {
    type V = GeoView;

    open spec fn view(&self) -> GeoView {
        GeoView {
            latitude: self.latitude@,
            longitude: self.longitude@,
            altitude: text_of(self.altitude),
            query: self.query@,
        }
    }
}

impl GeoParams {
    /// The view of a form nobody has filled in.
    pub open spec fn default_view() -> GeoView {
        GeoView {
        latitude: Seq::empty(),
        longitude: Seq::empty(),
        altitude: None,
        query: Seq::empty(),
    }
    }
}

impl GeoParams {
    /// Records what was typed in the altitude field: no altitude where it is
    /// blank.
    pub fn set_altitude(&mut self, typed: String)
        ensures
            final(self)@.altitude == (if is_blank(typed@) {
                None
            } else {
                Some(typed@)
            }),
            final(self)@.latitude == old(self)@.latitude,
            final(self)@.longitude == old(self)@.longitude,
            final(self)@.query == old(self)@.query,
    {
        if is_blank_text(typed.as_str()) {
            self.altitude = None;
        } else {
            self.altitude = Some(typed);
        }
    }
}

impl Default for GeoParams {
    fn default() -> (r: Self)
        ensures
            r@ == GeoParams::default_view(),
    {
        GeoParams {
            latitude: String::new(),
            longitude: String::new(),
            altitude: None,
            query: String::new(),
        }
    }
}

pub struct EventView {
    pub summary: Seq<char>,
    pub location: Seq<char>,
    pub description: Seq<char>,
    pub start: Seq<char>,
    pub end: Seq<char>,
    pub all_day: bool,
}

#[derive(Debug, Clone)]
pub struct EventParams {
    pub summary: String,
    pub location: String,
    pub description: String,
    /// ISO 8601 local datetime, e.g. 2026-01-31T18:00
    pub start: String,
    pub end: String,
    pub all_day: bool,
}

impl View for EventParams {
    type V = EventView;

    open spec fn view(&self) -> EventView {
        EventView {
            summary: self.summary@,
            location: self.location@,
            description: self.description@,
            start: self.start@,
            end: self.end@,
            all_day: self.all_day,
        }
    }
}

impl EventParams {
    /// The view of a form nobody has filled in.
    pub open spec fn default_view() -> EventView {
        EventView {
        summary: Seq::empty(),
        location: Seq::empty(),
        description: Seq::empty(),
        start: Seq::empty(),
        end: Seq::empty(),
        all_day: false,
    }
    }
}

impl Default for EventParams {
    fn default() -> (r: Self)
        ensures
            r@ == EventParams::default_view(),
    {
        EventParams {
            summary: String::new(),
            location: String::new(),
            description: String::new(),
            start: String::new(),
            end: String::new(),
            all_day: false,
        }
    }
}

pub struct CryptoView {
    pub kind: CryptoKind,
    pub address: Seq<char>,
    pub amount: Seq<char>,
    pub label: Seq<char>,
    pub message: Seq<char>,
}

#[derive(Debug, Clone)]
pub struct CryptoParams {
    pub kind: CryptoKind,
    pub address: String,
    pub amount: String,
    pub label: String,
    pub message: String,
}

impl View for CryptoParams {
    type V = CryptoView;

    open spec fn view(&self) -> CryptoView {
        CryptoView {
            kind: self.kind,
            address: self.address@,
            amount: self.amount@,
            label: self.label@,
            message: self.message@,
        }
    }
}

impl CryptoParams {
    /// The view of a form nobody has filled in.
    pub open spec fn default_view() -> CryptoView {
        CryptoView {
        kind: CryptoKind::Bitcoin,
        address: Seq::empty(),
        amount: Seq::empty(),
        label: Seq::empty(),
        message: Seq::empty(),
    }
    }
}

impl Default for CryptoParams {
    fn default() -> (r: Self)
        ensures
            r@ == CryptoParams::default_view(),
    {
        CryptoParams {
            kind: CryptoKind::Bitcoin,
            address: String::new(),
            amount: String::new(),
            label: String::new(),
            message: String::new(),
        }
    }
}

pub struct PartsView {
    pub text: Seq<char>,
    pub wifi: WifiView,
    pub vcard: VCardView,
    pub email: EmailView,
    pub phone: SmsView,
    pub sms: SmsView,
    pub geo: GeoView,
    pub event: EventView,
    pub crypto: CryptoView,
}

/// Bag of typed parameters keyed by [`QrKind`]. Only the relevant field is
/// read when building, the others are kept around so the UI state survives
/// switching tabs.
#[derive(Debug, Clone)]
pub struct QrParts {
    pub text: String,
    pub wifi: WifiParams,
    pub vcard: VCardParams,
    pub email: EmailParams,
    /// phone reuses SmsParams (phone + optional msg unused)
    pub phone: SmsParams,
    pub sms: SmsParams,
    pub geo: GeoParams,
    pub event: EventParams,
    pub crypto: CryptoParams,
}

impl View for QrParts {
    type V = PartsView;

    open spec fn view(&self) -> PartsView {
        PartsView {
            text: self.text@,
            wifi: self.wifi@,
            vcard: self.vcard@,
            email: self.email@,
            phone: self.phone@,
            sms: self.sms@,
            geo: self.geo@,
            event: self.event@,
            crypto: self.crypto@,
        }
    }
}

impl QrParts {
    /// The view of a form nobody has filled in.
    pub open spec fn default_view() -> PartsView {
        PartsView {
            text: Seq::empty(),
            wifi: WifiParams::default_view(),
            vcard: VCardParams::default_view(),
            email: EmailParams::default_view(),
            phone: SmsParams::default_view(),
            sms: SmsParams::default_view(),
            geo: GeoParams::default_view(),
            event: EventParams::default_view(),
            crypto: CryptoParams::default_view(),
        }
    }
}

impl Default for QrParts {
    fn default() -> (r: Self)
        ensures
            r@ == QrParts::default_view(),
    {
        QrParts {
            text: String::new(),
            wifi: WifiParams::default(),
            vcard: VCardParams::default(),
            email: EmailParams::default(),
            phone: SmsParams::default(),
            sms: SmsParams::default(),
            geo: GeoParams::default(),
            event: EventParams::default(),
            crypto: CryptoParams::default(),
        }
    }
}

// ---------------------------------------------------------------------------
// Payloads

/// `open`, the escaped `value` and `close`, or nothing where `value` is blank.
pub open spec fn field_line(open: Seq<char>, value: Seq<char>, close: Seq<char>) -> Seq<char> {
    if is_blank(value) {
        Seq::empty()
    } else {
        open + escaped(value) + close
    }
}

/// `query` with the parameter `name` (which carries its `=`) and the
/// URL-encoded `value` joined to it by `&`, or `query` as it is where `value`
/// is blank.
pub open spec fn with_param(query: Seq<char>, name: Seq<char>, value: Seq<char>) -> Seq<char> {
    if is_blank(value) {
        query
    } else if query.len() == 0 {
        name + url_encoded(value)
    } else {
        query + "&"@ + name + url_encoded(value)
    }
}

/// `?` and `query`, or nothing where the query is empty.
pub open spec fn query_suffix(query: Seq<char>) -> Seq<char> {
    if query.len() == 0 {
        Seq::empty()
    } else {
        "?"@ + query
    }
}

pub open spec fn url_payload(text: Seq<char>) -> Seq<char> {
    let t = trim(text);
    if t.len() == 0 {
        Seq::empty()
    } else if !occurs_in("://"@, t) && !begins_with(t, "mailto:"@) && !begins_with(t, "tel:"@) {
        "https://"@ + t
    } else {
        t
    }
}

pub open spec fn phone_payload(p: SmsView) -> Seq<char> {
    let t = trim(p.phone);
    if t.len() == 0 {
        Seq::empty()
    } else {
        "tel:"@ + t
    }
}

pub open spec fn wifi_payload(p: WifiView) -> Seq<char> {
    if is_blank(p.ssid) {
        Seq::empty()
    } else {
        "WIFI:T:"@ + security_token(p.security) + ";S:"@ + escaped(p.ssid) + ";P:"@ + escaped(
            p.password,
        ) + ";H:"@ + (if p.hidden {
            "true"@
        } else {
            "false"@
        }) + ";;"@
    }
}

pub open spec fn vcard_payload(p: VCardView) -> Seq<char> {
    if is_blank(p.full_name) {
        Seq::empty()
    } else {
        "BEGIN:VCARD\r\nVERSION:3.0\r\n"@ + ("FN:"@ + escaped(p.full_name) + "\r\n"@) + ("N:"@
            + escaped(last_word(p.full_name)) + ";"@ + escaped(first_word(p.full_name))
            + ";;;\r\n"@) + field_line("ORG:"@, p.org, "\r\n"@) + field_line(
            "TITLE:"@,
            p.title,
            "\r\n"@,
        ) + field_line("TEL:"@, p.phone, "\r\n"@) + field_line("EMAIL:"@, p.email, "\r\n"@)
            + field_line("URL:"@, p.url, "\r\n"@) + field_line("ADR:;;"@, p.address, ";;;;\r\n"@)
            + field_line("NOTE:"@, p.note, "\r\n"@) + "END:VCARD\r\n"@
    }
}

pub open spec fn email_payload(p: EmailView) -> Seq<char> {
    if is_blank(p.to) {
        Seq::empty()
    } else {
        "mailto:"@ + url_encoded(p.to) + query_suffix(
            with_param(with_param(Seq::empty(), "subject="@, p.subject), "body="@, p.body),
        )
    }
}

pub open spec fn sms_payload(p: SmsView) -> Seq<char> {
    if is_blank(p.phone) {
        Seq::empty()
    } else if is_blank(p.message) {
        "smsto:"@ + trim(p.phone)
    } else {
        "smsto:"@ + trim(p.phone) + ":"@ + url_encoded(p.message)
    }
}

/// `,` and the trimmed altitude, or nothing where there is none.
pub open spec fn altitude_part(altitude: Option<Seq<char>>) -> Seq<char> {
    match altitude {
        Some(a) => if is_blank(a) {
            Seq::empty()
        } else {
            ","@ + trim(a)
        },
        None => Seq::empty(),
    }
}

pub open spec fn geo_payload(p: GeoView) -> Seq<char> {
    if is_blank(p.latitude) || is_blank(p.longitude) {
        Seq::empty()
    } else {
        "geo:"@ + trim(p.latitude) + ","@ + trim(p.longitude) + altitude_part(p.altitude) + (
        if is_blank(p.query) {
            Seq::empty()
        } else {
            "?"@ + url_encoded(p.query)
        })
    }
}

/// The start and end lines of an event: dates alone for an all-day event.
pub open spec fn event_dates(start: Seq<char>, end: Seq<char>, all_day: bool) -> Seq<char> {
    if all_day {
        "DTSTART;VALUE=DATE:"@ + date_part(start) + "\r\n"@ + "DTEND;VALUE=DATE:"@ + date_part(end)
            + "\r\n"@
    } else {
        "DTSTART:"@ + start + "\r\n"@ + "DTEND:"@ + end + "\r\n"@
    }
}

/// The end of an event: its start where no end was given.
pub open spec fn event_end(p: EventView) -> Seq<char> {
    if is_blank(p.end) {
        p.start
    } else {
        p.end
    }
}

pub open spec fn event_payload(p: EventView) -> Seq<char> {
    if is_blank(p.summary) || is_blank(p.start) {
        Seq::empty()
    } else {
        "BEGIN:VCALENDAR\r\nVERSION:2.0\r\nBEGIN:VEVENT\r\n"@ + "SUMMARY:"@ + escaped(p.summary)
            + "\r\n"@ + field_line("LOCATION:"@, p.location, "\r\n"@) + field_line(
            "DESCRIPTION:"@,
            p.description,
            "\r\n"@,
        ) + event_dates(p.start, event_end(p), p.all_day) + "END:VEVENT\r\nEND:VCALENDAR\r\n"@
    }
}

pub open spec fn crypto_payload(p: CryptoView) -> Seq<char> {
    if is_blank(p.address) {
        Seq::empty()
    } else {
        crypto_scheme(p.kind) + ":"@ + trim(p.address) + query_suffix(
            with_param(
                with_param(with_param(Seq::empty(), "amount="@, p.amount), "label="@, p.label),
                "message="@,
                p.message,
            ),
        )
    }
}

/// The text that the builder of `kind` makes of its part of the form.
pub open spec fn raw_payload(kind: QrKind, parts: PartsView) -> Seq<char> {
    match kind {
        QrKind::Text => trim(parts.text),
        QrKind::Url => url_payload(parts.text),
        QrKind::Wifi => wifi_payload(parts.wifi),
        QrKind::VCard => vcard_payload(parts.vcard),
        QrKind::Email => email_payload(parts.email),
        QrKind::Phone => phone_payload(parts.phone),
        QrKind::Sms => sms_payload(parts.sms),
        QrKind::Geo => geo_payload(parts.geo),
        QrKind::Event => event_payload(parts.event),
        QrKind::Crypto => crypto_payload(parts.crypto),
    }
}

/// The payload of `kind`, or `None` where it would be blank.
pub open spec fn payload(kind: QrKind, parts: PartsView) -> Option<Seq<char>> {
    let s = raw_payload(kind, parts);
    if is_blank(s) {
        None
    } else {
        Some(s)
    }
}

fn push_field_line(out: &mut String, open: &str, value: &str, close: &str)
    ensures
        final(out)@ == old(out)@ + field_line(open@, value@, close@),
{
    if !is_blank_text(value) {
        out.append(open);
        let e = esc(value);
        out.append(e.as_str());
        out.append(close);
        assert(out@ =~= old(out)@ + field_line(open@, value@, close@));
    } else {
        assert(out@ =~= old(out)@ + field_line(open@, value@, close@));
    }
}

fn push_param(query: &mut String, name: &str, value: &str)
    ensures
        final(query)@ == with_param(old(query)@, name@, value@),
{
    if !is_blank_text(value) {
        if !query.as_str().is_empty() {
            query.append("&");
        }
        query.append(name);
        let e = url_encode(value);
        query.append(e.as_str());
        assert(query@ =~= with_param(old(query)@, name@, value@));
    }
}

fn push_query(out: &mut String, query: &String)
    ensures
        final(out)@ == old(out)@ + query_suffix(query@),
{
    if !query.as_str().is_empty() {
        out.append("?");
        out.append(query.as_str());
        assert(out@ =~= old(out)@ + query_suffix(query@));
    } else {
        assert(out@ =~= old(out)@ + query_suffix(query@));
    }
}

pub fn build_wifi(p: &WifiParams) -> (r: String)
    ensures
        r@ == wifi_payload(p@),
{
    if is_blank_text(&p.ssid) {
        return String::new();
    }
    let mut out = String::from_str("WIFI:T:");
    out.append(p.security.token());
    out.append(";S:");
    out.append(esc(&p.ssid).as_str());
    out.append(";P:");
    out.append(esc(&p.password).as_str());
    out.append(";H:");
    out.append(if p.hidden {
        "true"
    } else {
        "false"
    });
    out.append(";;");
    out
}

pub fn build_vcard(p: &VCardParams) -> (r: String)
    ensures
        r@ == vcard_payload(p@),
{
    if is_blank_text(&p.full_name) {
        return String::new();
    }
    let mut out = String::from_str("BEGIN:VCARD\r\nVERSION:3.0\r\n");
    let mut full_name_line = String::from_str("FN:");
    full_name_line.append(esc(&p.full_name).as_str());
    full_name_line.append("\r\n");
    out.append(full_name_line.as_str());
    let (first, last) = first_and_last_word(&p.full_name);
    let mut name_line = String::from_str("N:");
    name_line.append(esc(last.as_str()).as_str());
    name_line.append(";");
    name_line.append(esc(first.as_str()).as_str());
    name_line.append(";;;\r\n");
    out.append(name_line.as_str());
    push_field_line(&mut out, "ORG:", &p.org, "\r\n");
    push_field_line(&mut out, "TITLE:", &p.title, "\r\n");
    push_field_line(&mut out, "TEL:", &p.phone, "\r\n");
    push_field_line(&mut out, "EMAIL:", &p.email, "\r\n");
    push_field_line(&mut out, "URL:", &p.url, "\r\n");
    push_field_line(&mut out, "ADR:;;", &p.address, ";;;;\r\n");
    push_field_line(&mut out, "NOTE:", &p.note, "\r\n");
    out.append("END:VCARD\r\n");
    out
}

pub fn build_email(p: &EmailParams) -> (r: String)
    ensures
        r@ == email_payload(p@),
{
    if is_blank_text(&p.to) {
        return String::new();
    }
    let mut url = String::from_str("mailto:");
    url.append(url_encode(&p.to).as_str());
    let mut qs = String::new();
    push_param(&mut qs, "subject=", &p.subject);
    push_param(&mut qs, "body=", &p.body);
    push_query(&mut url, &qs);
    url
}

pub fn build_sms(p: &SmsParams) -> (r: String)
    ensures
        r@ == sms_payload(p@),
{
    if is_blank_text(&p.phone) {
        return String::new();
    }
    let mut out = String::from_str("smsto:");
    push_trimmed(&mut out, &p.phone);
    if !is_blank_text(&p.message) {
        out.append(":");
        out.append(url_encode(&p.message).as_str());
    }
    out
}

pub fn build_geo(p: &GeoParams) -> (r: String)
    ensures
        r@ == geo_payload(p@),
{
    if is_blank_text(&p.latitude) || is_blank_text(&p.longitude) {
        return String::new();
    }
    let mut url = String::from_str("geo:");
    push_trimmed(&mut url, &p.latitude);
    url.append(",");
    push_trimmed(&mut url, &p.longitude);
    let ghost before_alt = url@;
    match &p.altitude {
        Some(alt) => {
            if !is_blank_text(alt) {
                url.append(",");
                push_trimmed(&mut url, alt);
            }
        },
        None => {},
    }
    assert(url@ =~= before_alt + altitude_part(p@.altitude));
    if !is_blank_text(&p.query) {
        url.append("?");
        url.append(url_encode(&p.query).as_str());
    }
    assert(url@ =~= geo_payload(p@));
    url
}

pub fn build_event(p: &EventParams) -> (r: String)
    ensures
        r@ == event_payload(p@),
{
    if is_blank_text(&p.summary) || is_blank_text(&p.start) {
        return String::new();
    }
    let end: &str = if is_blank_text(&p.end) {
        p.start.as_str()
    } else {
        p.end.as_str()
    };
    let mut out = String::from_str("BEGIN:VCALENDAR\r\nVERSION:2.0\r\nBEGIN:VEVENT\r\n");
    out.append("SUMMARY:");
    out.append(esc(&p.summary).as_str());
    out.append("\r\n");
    push_field_line(&mut out, "LOCATION:", &p.location, "\r\n");
    push_field_line(&mut out, "DESCRIPTION:", &p.description, "\r\n");
    let ghost before_dates = out@;
    if p.all_day {
        // vCalendar expects DATE values for all-day.
        out.append("DTSTART;VALUE=DATE:");
        out.append(strip_time(&p.start).as_str());
        out.append("\r\n");
        out.append("DTEND;VALUE=DATE:");
        out.append(strip_time(end).as_str());
        out.append("\r\n");
    } else {
        out.append("DTSTART:");
        out.append(&p.start);
        out.append("\r\n");
        out.append("DTEND:");
        out.append(end);
        out.append("\r\n");
    }
    assert(out@ =~= before_dates + event_dates(p@.start, event_end(p@), p@.all_day));
    out.append("END:VEVENT\r\nEND:VCALENDAR\r\n");
    out
}

pub fn build_crypto(p: &CryptoParams) -> (r: String)
    ensures
        r@ == crypto_payload(p@),
{
    if is_blank_text(&p.address) {
        return String::new();
    }
    let mut url = String::from_str(p.kind.scheme());
    url.append(":");
    push_trimmed(&mut url, &p.address);
    let mut qs = String::new();
    push_param(&mut qs, "amount=", &p.amount);
    push_param(&mut qs, "label=", &p.label);
    push_param(&mut qs, "message=", &p.message);
    push_query(&mut url, &qs);
    url
}

fn build_url(text: &str) -> (r: String)
    ensures
        r@ == url_payload(text@),
{
    let t = trimmed(text);
    if t.as_str().is_empty() {
        return t;
    }
    let tv = chars_of(t.as_str());
    if !occurs(&chars_of("://"), &tv) && !starts(&tv, &chars_of("mailto:")) && !starts(
        &tv,
        &chars_of("tel:"),
    ) {
        let mut out = String::from_str("https://");
        out.append(t.as_str());
        out
    } else {
        t
    }
}

fn build_phone(p: &SmsParams) -> (r: String)
    ensures
        r@ == phone_payload(p@),
{
    let t = trimmed(&p.phone);
    if t.as_str().is_empty() {
        return t;
    }
    let mut out = String::from_str("tel:");
    out.append(t.as_str());
    out
}

/// The payload of `kind` made of its part of `parts`, or `None` where the
/// form is not filled in enough to make one.
pub fn build(kind: QrKind, parts: &QrParts) -> (r: Option<String>)
    ensures
        text_of(r) == payload(kind, parts@),
{
    let s = match kind {
        QrKind::Text => trimmed(&parts.text),
        QrKind::Url => build_url(&parts.text),
        QrKind::Wifi => build_wifi(&parts.wifi),
        QrKind::VCard => build_vcard(&parts.vcard),
        QrKind::Email => build_email(&parts.email),
        QrKind::Phone => build_phone(&parts.phone),
        QrKind::Sms => build_sms(&parts.sms),
        QrKind::Geo => build_geo(&parts.geo),
        QrKind::Event => build_event(&parts.event),
        QrKind::Crypto => build_crypto(&parts.crypto),
    };
    if is_blank_text(s.as_str()) {
        None
    } else {
        Some(s)
    }
}

/// The part of the form that the builder of `kind` reads.
pub open spec fn same_part(kind: QrKind, a: PartsView, b: PartsView) -> bool {
    match kind {
        QrKind::Text | QrKind::Url => a.text == b.text,
        QrKind::Wifi => a.wifi == b.wifi,
        QrKind::VCard => a.vcard == b.vcard,
        QrKind::Email => a.email == b.email,
        QrKind::Phone => a.phone.phone == b.phone.phone,
        QrKind::Sms => a.sms == b.sms,
        QrKind::Geo => a.geo == b.geo,
        QrKind::Event => a.event == b.event,
        QrKind::Crypto => a.crypto == b.crypto,
    }
}

/// Only the relevant field is read when building: two forms that agree on
/// the part of `kind` give the same payload, whatever the other parts hold.
pub proof fn law_build_reads_only_its_part(kind: QrKind, a: PartsView, b: PartsView)
    requires
        same_part(kind, a, b),
    ensures
        payload(kind, a) == payload(kind, b),
{
}

/// A form nobody has filled in gives no payload, whatever the kind.
pub proof fn law_empty_form_gives_no_payload(kind: QrKind)
    ensures
        payload(kind, QrParts::default_view()) is None,
{
}

/// An upper-case hexadecimal digit.
pub open spec fn upper_hex(c: char) -> bool {
    ('0' <= c <= '9') || ('A' <= c <= 'F')
}

/// A character that a URL carries as it is.
pub open spec fn unreserved_char(c: char) -> bool {
    ('A' <= c <= 'Z') || ('a' <= c <= 'z') || ('0' <= c <= '9') || c == '-' || c == '_' || c
        == '.' || c == '~'
}

/// `t` is made of unreserved characters and of `%` escapes, each `%`
/// followed by two upper-case hexadecimal digits.
pub open spec fn percent_form(t: Seq<char>) -> bool
    decreases t.len(),
{
    if t.len() == 0 {
        true
    } else if t[0] == '%' {
        t.len() >= 3 && upper_hex(t[1]) && upper_hex(t[2]) && percent_form(
            t.subrange(3, t.len() as int),
        )
    } else {
        unreserved_char(t[0]) && percent_form(t.drop_first())
    }
}

/// The value of a hexadecimal digit.
pub open spec fn hex_value(c: char) -> nat {
    if '0' <= c <= '9' {
        (c as nat - 48) as nat
    } else if 'A' <= c <= 'F' {
        (c as nat - 55) as nat
    } else {
        0
    }
}

/// The bytes that `t` stands for: each `%XY` the byte `0xXY`, each other
/// character its own code.
pub open spec fn percent_decoded(t: Seq<char>) -> Seq<u8>
    decreases t.len(),
{
    if t.len() == 0 {
        Seq::empty()
    } else if t[0] == '%' && t.len() >= 3 {
        seq![(hex_value(t[1]) * 16 + hex_value(t[2])) as u8] + percent_decoded(
            t.subrange(3, t.len() as int),
        )
    } else {
        seq![t[0] as u8] + percent_decoded(t.drop_first())
    }
}

proof fn lemma_percent_concat(a: Seq<u8>, b: Seq<u8>)
    ensures
        percent_encoded(a + b) == percent_encoded(a) + percent_encoded(b),
    decreases b.len(),
{
    if b.len() == 0 {
        assert(a + b =~= a);
        assert(percent_encoded(a) + percent_encoded(b) =~= percent_encoded(a));
    } else {
        assert((a + b).drop_last() =~= a + b.drop_last());
        assert((a + b).last() == b.last());
        lemma_percent_concat(a, b.drop_last());
        assert(percent_encoded(a) + percent_encoded(b.drop_last()) + percent_byte(b.last())
            =~= percent_encoded(a) + percent_encoded(b));
    }
}

proof fn lemma_percent_front(b: Seq<u8>)
    requires
        b.len() > 0,
    ensures
        percent_encoded(b) == percent_byte(b[0]) + percent_encoded(b.drop_first()),
{
    assert(b =~= seq![b[0]] + b.drop_first());
    lemma_percent_concat(seq![b[0]], b.drop_first());
    let one = seq![b[0]];
    assert(one.drop_last() =~= Seq::<u8>::empty());
    assert(one.last() == b[0]);
    assert(percent_encoded(one.drop_last()) == Seq::<char>::empty());
    assert(percent_encoded(one) =~= percent_byte(b[0]));
}

proof fn lemma_hex_char(d: u8)
    requires
        d < 16,
    ensures
        upper_hex(hex_char(d)),
        hex_value(hex_char(d)) == d,
        hex_char(d) != '%',
{
    let u: u8 = if d < 10 {
        (48 + d) as u8
    } else {
        (55 + d) as u8
    };
    assert((u as char) as nat == u as nat);
}

proof fn lemma_byte_char(b: u8)
    ensures
        (b as char) as u8 == b,
        (b as char) as nat == b as nat,
{
}

/// A percent-encoded text is made of unreserved characters and of `%`
/// escapes with upper-case hexadecimal digits.
pub proof fn law_percent_encoded_form(bytes: Seq<u8>)
    ensures
        percent_form(percent_encoded(bytes)),
    decreases bytes.len(),
{
    if bytes.len() > 0 {
        lemma_percent_front(bytes);
        law_percent_encoded_form(bytes.drop_first());
        let b = bytes[0];
        let rest = percent_encoded(bytes.drop_first());
        let t = percent_encoded(bytes);
        lemma_byte_char(b);
        if unreserved(b) {
            assert(t[0] == b as char);
            assert(t.drop_first() =~= rest);
        } else {
            lemma_hex_char(b / 16);
            lemma_hex_char(b % 16);
            assert(t.subrange(3, t.len() as int) =~= rest);
        }
    }
}

/// Percent-decoding a percent-encoded text gives back its bytes.
pub proof fn law_percent_decode_encoded(bytes: Seq<u8>)
    ensures
        percent_decoded(percent_encoded(bytes)) == bytes,
    decreases bytes.len(),
{
    if bytes.len() > 0 {
        lemma_percent_front(bytes);
        law_percent_decode_encoded(bytes.drop_first());
        let b = bytes[0];
        let rest = percent_encoded(bytes.drop_first());
        let t = percent_encoded(bytes);
        lemma_byte_char(b);
        if unreserved(b) {
            assert(t[0] == b as char);
            assert(t.drop_first() =~= rest);
        } else {
            lemma_hex_char(b / 16);
            lemma_hex_char(b % 16);
            assert(t.subrange(3, t.len() as int) =~= rest);
            assert((b / 16) * 16 + b % 16 == b);
        }
        assert(seq![b] + bytes.drop_first() =~= bytes);
    }
}

/// Text made of unreserved ASCII characters comes out of URL-encoding as it
/// went in.
pub proof fn law_url_encoded_unreserved_text(s: Seq<char>)
    requires
        forall|i: int| 0 <= i < s.len() ==> unreserved_char(#[trigger] s[i]),
    ensures
        url_encoded(s) == s,
{
    assert(vstd::utf8::is_ascii_chars(s));
    vstd::utf8::is_ascii_chars_encode_utf8(s);
    lemma_percent_ascii(encode_utf8(s), s);
}

proof fn lemma_percent_ascii(b: Seq<u8>, s: Seq<char>)
    requires
        b.len() == s.len(),
        forall|i: int| 0 <= i < s.len() ==> unreserved_char(#[trigger] s[i]),
        forall|i: int| 0 <= i < s.len() ==> #[trigger] b[i] == s[i] as u8,
    ensures
        percent_encoded(b) == s,
    decreases b.len(),
{
    if b.len() > 0 {
        let k = b.len() - 1;
        assert(unreserved_char(s[k]));
        assert(b[k] == s[k] as u8);
        assert((b[k] as char) == s[k]) by {
            assert((s[k] as u8) as char == s[k]);
        }
        lemma_percent_ascii(b.drop_last(), s.drop_last());
        assert(s.drop_last().push(s[k]) =~= s);
        assert(percent_encoded(b) =~= s);
    }
}

/// A Wi-Fi payload starts with the security token, the escaped network name
/// and the escaped password, and ends by saying whether the network is
/// hidden: `H:true` exactly for a hidden network, whatever its security.
pub proof fn law_wifi_fields(p: WifiView)
    requires
        !is_blank(p.ssid),
    ensures
        begins_with(
            wifi_payload(p),
            "WIFI:T:"@ + security_token(p.security) + ";S:"@ + escaped(p.ssid) + ";P:"@ + escaped(
                p.password,
            ) + ";H:"@,
        ),
        p.hidden ==> ends_with(wifi_payload(p), ";H:true;;"@),
        !p.hidden ==> ends_with(wifi_payload(p), ";H:false;;"@),
{
    let head = "WIFI:T:"@ + security_token(p.security) + ";S:"@ + escaped(p.ssid) + ";P:"@
        + escaped(p.password);
    let flag = if p.hidden {
        "true"@
    } else {
        "false"@
    };
    assert(wifi_payload(p) == head + ";H:"@ + flag + ";;"@);
    lemma_four_pieces(head, ";H:"@, flag, ";;"@);
    lemma_hidden_flags();
}

proof fn lemma_hidden_flags()
    ensures
        ";H:"@ + "true"@ + ";;"@ == ";H:true;;"@,
        ";H:"@ + "false"@ + ";;"@ == ";H:false;;"@,
{
    reveal_strlit(";H:true;;");
    reveal_strlit(";H:false;;");
    reveal_strlit(";H:");
    reveal_strlit("true");
    reveal_strlit("false");
    reveal_strlit(";;");
    assert(";H:"@ + "true"@ + ";;"@ =~= ";H:true;;"@);
    assert(";H:"@ + "false"@ + ";;"@ =~= ";H:false;;"@);
}

/// A URL without a scheme of its own (no `://`, not `mailto:` nor `tel:`)
/// gets `https://` in front of its trimmed text, whatever other characters,
/// such as `:`, it holds; one with such a scheme is kept, trimmed.
pub proof fn law_url_scheme(text: Seq<char>)
    ensures
        trim(text).len() > 0 && !occurs_in("://"@, trim(text)) && !begins_with(
            trim(text),
            "mailto:"@,
        ) && !begins_with(trim(text), "tel:"@) ==> url_payload(text) == "https://"@ + trim(
            text,
        ),
        (occurs_in("://"@, trim(text)) || begins_with(trim(text), "mailto:"@) || begins_with(
            trim(text),
            "tel:"@,
        )) ==> url_payload(text) == trim(text),
        trim(text).len() == 0 ==> url_payload(text).len() == 0,
{
}

/// An event payload carries its start, and its end: the end the user typed
/// where it is not blank, the start otherwise; dates alone for an all-day
/// event.
pub proof fn law_event_dates(p: EventView)
    requires
        !is_blank(p.summary),
        !is_blank(p.start),
    ensures
        !p.all_day ==> occurs_in("DTSTART:"@ + p.start + "\r\n"@, event_payload(p)),
        !p.all_day && !is_blank(p.end) ==> occurs_in(
            "DTEND:"@ + p.end + "\r\n"@,
            event_payload(p),
        ),
        !p.all_day && is_blank(p.end) ==> occurs_in(
            "DTEND:"@ + p.start + "\r\n"@,
            event_payload(p),
        ),
        p.all_day ==> occurs_in(
            "DTSTART;VALUE=DATE:"@ + date_part(p.start) + "\r\n"@,
            event_payload(p),
        ),
        p.all_day && !is_blank(p.end) ==> occurs_in(
            "DTEND;VALUE=DATE:"@ + date_part(p.end) + "\r\n"@,
            event_payload(p),
        ),
        p.all_day && is_blank(p.end) ==> occurs_in(
            "DTEND;VALUE=DATE:"@ + date_part(p.start) + "\r\n"@,
            event_payload(p),
        ),
{
    let end = if is_blank(p.end) {
        p.start
    } else {
        p.end
    };
    let head = "BEGIN:VCALENDAR\r\nVERSION:2.0\r\nBEGIN:VEVENT\r\n"@ + "SUMMARY:"@ + escaped(
        p.summary,
    ) + "\r\n"@ + field_line("LOCATION:"@, p.location, "\r\n"@) + field_line(
        "DESCRIPTION:"@,
        p.description,
        "\r\n"@,
    );
    let tail = "END:VEVENT\r\nEND:VCALENDAR\r\n"@;
    let (first, second) = if p.all_day {
        (
            "DTSTART;VALUE=DATE:"@ + date_part(p.start) + "\r\n"@,
            "DTEND;VALUE=DATE:"@ + date_part(end) + "\r\n"@,
        )
    } else {
        ("DTSTART:"@ + p.start + "\r\n"@, "DTEND:"@ + end + "\r\n"@)
    };
    assert(event_end(p) == end);
    assert(event_dates(p.start, end, p.all_day) =~= first + second);
    assert(event_payload(p) == head + event_dates(p.start, end, p.all_day) + tail);
    lemma_begins(first, second);
    lemma_occurs_at_end(first, second);
    lemma_occurs_prepend(first, head, first + second);
    lemma_occurs_prepend(second, head, first + second);
    lemma_occurs_extend(first, head + (first + second), tail);
    lemma_occurs_extend(second, head + (first + second), tail);
}

/// An event payload opens the calendar and the event with its escaped
/// summary, carries the location and description lines where they are not
/// blank, and closes the event and the calendar.
pub proof fn law_event_lines(p: EventView)
    requires
        !is_blank(p.summary),
        !is_blank(p.start),
    ensures
        begins_with(
            event_payload(p),
            "BEGIN:VCALENDAR\r\nVERSION:2.0\r\nBEGIN:VEVENT\r\n"@ + "SUMMARY:"@ + escaped(p.summary)
                + "\r\n"@,
        ),
        ends_with(event_payload(p), "END:VEVENT\r\nEND:VCALENDAR\r\n"@),
        !is_blank(p.location) ==> occurs_in(
            "LOCATION:"@ + escaped(p.location) + "\r\n"@,
            event_payload(p),
        ),
        !is_blank(p.description) ==> occurs_in(
            "DESCRIPTION:"@ + escaped(p.description) + "\r\n"@,
            event_payload(p),
        ),
{
    let open = "BEGIN:VCALENDAR\r\nVERSION:2.0\r\nBEGIN:VEVENT\r\n"@ + "SUMMARY:"@ + escaped(
        p.summary,
    ) + "\r\n"@;
    let loc = field_line("LOCATION:"@, p.location, "\r\n"@);
    let desc = field_line("DESCRIPTION:"@, p.description, "\r\n"@);
    let dates = event_dates(p.start, event_end(p), p.all_day);
    let close = "END:VEVENT\r\nEND:VCALENDAR\r\n"@;
    assert(event_payload(p) == open + loc + desc + dates + close);
    lemma_begins(open, loc);
    lemma_begins_extend(open, open + loc, desc);
    lemma_begins_extend(open, open + loc + desc, dates);
    lemma_begins_extend(open, open + loc + desc + dates, close);
    lemma_occurs_at_end(open + loc + desc + dates, close);
    lemma_occurs_at_end(open, loc);
    lemma_occurs_extend(loc, open + loc, desc);
    lemma_occurs_extend(loc, open + loc + desc, dates);
    lemma_occurs_extend(loc, open + loc + desc + dates, close);
    lemma_occurs_at_end(open + loc, desc);
    lemma_occurs_extend(desc, open + loc + desc, dates);
    lemma_occurs_extend(desc, open + loc + desc + dates, close);
}

/// A contact payload carries the full name, the name split into last and
/// first word, and the line of every field that is not blank.
pub proof fn law_vcard_fields(p: VCardView)
    requires
        !is_blank(p.full_name),
    ensures
        begins_with(vcard_payload(p), "BEGIN:VCARD\r\nVERSION:3.0\r\n"@),
        ends_with(vcard_payload(p), "END:VCARD\r\n"@),
        occurs_in("FN:"@ + escaped(p.full_name) + "\r\n"@, vcard_payload(p)),
        occurs_in(
            "N:"@ + escaped(last_word(p.full_name)) + ";"@ + escaped(first_word(p.full_name))
                + ";;;\r\n"@,
            vcard_payload(p),
        ),
        !is_blank(p.org) ==> occurs_in("ORG:"@ + escaped(p.org) + "\r\n"@, vcard_payload(p)),
        !is_blank(p.title) ==> occurs_in(
            "TITLE:"@ + escaped(p.title) + "\r\n"@,
            vcard_payload(p),
        ),
        !is_blank(p.phone) ==> occurs_in("TEL:"@ + escaped(p.phone) + "\r\n"@, vcard_payload(p)),
        !is_blank(p.email) ==> occurs_in(
            "EMAIL:"@ + escaped(p.email) + "\r\n"@,
            vcard_payload(p),
        ),
        !is_blank(p.url) ==> occurs_in("URL:"@ + escaped(p.url) + "\r\n"@, vcard_payload(p)),
        !is_blank(p.address) ==> occurs_in(
            "ADR:;;"@ + escaped(p.address) + ";;;;\r\n"@,
            vcard_payload(p),
        ),
        !is_blank(p.note) ==> occurs_in(
            "NOTE:"@ + escaped(p.note) + "\r\n"@,
            vcard_payload(p),
        ),
{
    let begin = "BEGIN:VCARD\r\nVERSION:3.0\r\n"@;
    let x0 = "FN:"@ + escaped(p.full_name) + "\r\n"@;
    let x1 = "N:"@ + escaped(last_word(p.full_name)) + ";"@ + escaped(first_word(p.full_name))
        + ";;;\r\n"@;
    let x2 = field_line("ORG:"@, p.org, "\r\n"@);
    let x3 = field_line("TITLE:"@, p.title, "\r\n"@);
    let x4 = field_line("TEL:"@, p.phone, "\r\n"@);
    let x5 = field_line("EMAIL:"@, p.email, "\r\n"@);
    let x6 = field_line("URL:"@, p.url, "\r\n"@);
    let x7 = field_line("ADR:;;"@, p.address, ";;;;\r\n"@);
    let x8 = field_line("NOTE:"@, p.note, "\r\n"@);
    let x9 = "END:VCARD\r\n"@;
    let lines = seq![x0, x1, x2, x3, x4, x5, x6, x7, x8, x9];
    assert(lines[0] == x0 && lines[1] == x1 && lines[2] == x2 && lines[3] == x3 && lines[4] == x4
        && lines[5] == x5 && lines[6] == x6 && lines[7] == x7 && lines[8] == x8 && lines[9] == x9);
    let head = begin + x0 + x1 + x2 + x3 + x4 + x5 + x6 + x7 + x8;
    let rest = x0 + x1 + x2 + x3 + x4 + x5 + x6 + x7 + x8 + x9;
    assert(vcard_payload(p) == head + x9);
    lemma_occurs_at_end(head, x9);
    lemma_concat_prefix_full(begin, lines);
    lemma_concat_prefix_begins(begin, lines, 10);
    lemma_line_occurs(begin, lines, 0);
    lemma_line_occurs(begin, lines, 1);
    lemma_line_occurs(begin, lines, 2);
    lemma_line_occurs(begin, lines, 3);
    lemma_line_occurs(begin, lines, 4);
    lemma_line_occurs(begin, lines, 5);
    lemma_line_occurs(begin, lines, 6);
    lemma_line_occurs(begin, lines, 7);
    lemma_line_occurs(begin, lines, 8);
}

/// Adding a parameter keeps what the query held, and adds `name` and the
/// encoded value where the value is not blank.
proof fn lemma_with_param(x: Seq<char>, q: Seq<char>, name: Seq<char>, v: Seq<char>)
    ensures
        occurs_in(x, q) ==> occurs_in(x, with_param(q, name, v)),
        !is_blank(v) ==> occurs_in(name + url_encoded(v), with_param(q, name, v)),
{
    if occurs_in(x, q) && !is_blank(v) {
        if q.len() == 0 {
            lemma_empty_occurs(x, with_param(q, name, v));
        } else {
            lemma_occurs_extend(x, q, "&"@);
            lemma_occurs_extend(x, q + "&"@, name);
            lemma_occurs_extend(x, q + "&"@ + name, url_encoded(v));
        }
    }
    if !is_blank(v) {
        if q.len() == 0 {
            lemma_begins(name + url_encoded(v), Seq::empty());
            assert(name + url_encoded(v) + Seq::<char>::empty() =~= name + url_encoded(v));
        } else {
            assert(q + "&"@ + name + url_encoded(v) =~= (q + "&"@) + (name + url_encoded(v)));
            lemma_occurs_at_end(q + "&"@, name + url_encoded(v));
        }
    }
}

/// What occurs in a query occurs in the text after its `?`.
proof fn lemma_query_suffix(x: Seq<char>, q: Seq<char>)
    requires
        occurs_in(x, q),
    ensures
        occurs_in(x, query_suffix(q)),
{
    if q.len() == 0 {
        assert(x.len() == 0);
        lemma_empty_occurs(x, query_suffix(q));
    } else {
        lemma_occurs_prepend(x, "?"@, q);
    }
}

/// A mail payload starts with the encoded address, and carries the encoded
/// subject and body where they are not blank.
pub proof fn law_email_fields(p: EmailView)
    requires
        !is_blank(p.to),
    ensures
        begins_with(email_payload(p), "mailto:"@ + url_encoded(p.to)),
        !is_blank(p.subject) ==> occurs_in(
            "subject="@ + url_encoded(p.subject),
            email_payload(p),
        ),
        !is_blank(p.body) ==> occurs_in("body="@ + url_encoded(p.body), email_payload(p)),
        is_blank(p.subject) && is_blank(p.body) ==> email_payload(p) == "mailto:"@ + url_encoded(
            p.to,
        ),
{
    let head = "mailto:"@ + url_encoded(p.to);
    let q1 = with_param(Seq::empty(), "subject="@, p.subject);
    let q2 = with_param(q1, "body="@, p.body);
    lemma_begins(head, query_suffix(q2));
    let x = "subject="@ + url_encoded(p.subject);
    let y = "body="@ + url_encoded(p.body);
    lemma_with_param(x, Seq::empty(), "subject="@, p.subject);
    lemma_with_param(x, q1, "body="@, p.body);
    lemma_with_param(y, q1, "body="@, p.body);
    if !is_blank(p.subject) {
        lemma_query_suffix(x, q2);
        lemma_occurs_prepend(x, head, query_suffix(q2));
    }
    if !is_blank(p.body) {
        lemma_query_suffix(y, q2);
        lemma_occurs_prepend(y, head, query_suffix(q2));
    }
    if is_blank(p.subject) && is_blank(p.body) {
        assert(head + query_suffix(q2) =~= head);
    }
}

/// A payment payload starts with the coin's scheme and the trimmed address,
/// and carries the encoded amount, label and message where they are not
/// blank.
pub proof fn law_crypto_fields(p: CryptoView)
    requires
        !is_blank(p.address),
    ensures
        begins_with(crypto_payload(p), crypto_scheme(p.kind) + ":"@ + trim(p.address)),
        !is_blank(p.amount) ==> occurs_in("amount="@ + url_encoded(p.amount), crypto_payload(p)),
        !is_blank(p.label) ==> occurs_in("label="@ + url_encoded(p.label), crypto_payload(p)),
        !is_blank(p.message) ==> occurs_in(
            "message="@ + url_encoded(p.message),
            crypto_payload(p),
        ),
        is_blank(p.amount) && is_blank(p.label) && is_blank(p.message) ==> crypto_payload(p)
            == crypto_scheme(p.kind) + ":"@ + trim(p.address),
{
    let head = crypto_scheme(p.kind) + ":"@ + trim(p.address);
    let q1 = with_param(Seq::empty(), "amount="@, p.amount);
    let q2 = with_param(q1, "label="@, p.label);
    let q3 = with_param(q2, "message="@, p.message);
    lemma_begins(head, query_suffix(q3));
    let a = "amount="@ + url_encoded(p.amount);
    let l = "label="@ + url_encoded(p.label);
    let m = "message="@ + url_encoded(p.message);
    lemma_with_param(a, Seq::empty(), "amount="@, p.amount);
    lemma_with_param(a, q1, "label="@, p.label);
    lemma_with_param(a, q2, "message="@, p.message);
    lemma_with_param(l, q1, "label="@, p.label);
    lemma_with_param(l, q2, "message="@, p.message);
    lemma_with_param(m, q2, "message="@, p.message);
    if !is_blank(p.amount) {
        lemma_query_suffix(a, q3);
        lemma_occurs_prepend(a, head, query_suffix(q3));
    }
    if !is_blank(p.label) {
        lemma_query_suffix(l, q3);
        lemma_occurs_prepend(l, head, query_suffix(q3));
    }
    if !is_blank(p.message) {
        lemma_query_suffix(m, q3);
        lemma_occurs_prepend(m, head, query_suffix(q3));
    }
    if is_blank(p.amount) && is_blank(p.label) && is_blank(p.message) {
        assert(head + query_suffix(q3) =~= head);
    }
}

/// An SMS payload starts with the trimmed number, and ends with the encoded
/// message where there is one.
pub proof fn law_sms_fields(p: SmsView)
    requires
        !is_blank(p.phone),
    ensures
        begins_with(sms_payload(p), "smsto:"@ + trim(p.phone)),
        !is_blank(p.message) ==> ends_with(sms_payload(p), ":"@ + url_encoded(p.message)),
        is_blank(p.message) ==> sms_payload(p) == "smsto:"@ + trim(p.phone),
{
    let head = "smsto:"@ + trim(p.phone);
    if !is_blank(p.message) {
        assert(head + ":"@ + url_encoded(p.message) =~= head + (":"@ + url_encoded(p.message)));
        lemma_begins(head, ":"@ + url_encoded(p.message));
        lemma_occurs_at_end(head, ":"@ + url_encoded(p.message));
    } else {
        lemma_begins(head, Seq::empty());
        assert(head + Seq::<char>::empty() =~= head);
    }
}

/// A location payload starts with the trimmed latitude and longitude,
/// carries the trimmed altitude where one is given, and ends with the
/// encoded label where there is one.
pub proof fn law_geo_fields(p: GeoView)
    requires
        !is_blank(p.latitude),
        !is_blank(p.longitude),
    ensures
        begins_with(geo_payload(p), "geo:"@ + trim(p.latitude) + ","@ + trim(p.longitude)),
        (p.altitude matches Some(a) && !is_blank(a)) ==> occurs_in(
            "geo:"@ + trim(p.latitude) + ","@ + trim(p.longitude) + ","@ + trim(
                p.altitude->0,
            ),
            geo_payload(p),
        ),
        !is_blank(p.query) ==> ends_with(geo_payload(p), "?"@ + url_encoded(p.query)),
{
    let head = "geo:"@ + trim(p.latitude) + ","@ + trim(p.longitude);
    let alt = altitude_part(p.altitude);
    let tail = if is_blank(p.query) {
        Seq::empty()
    } else {
        "?"@ + url_encoded(p.query)
    };
    assert(geo_payload(p) == head + alt + tail);
    lemma_begins(head, alt);
    lemma_begins_extend(head, head + alt, tail);
    lemma_occurs_at_end(head + alt, tail);
    if p.altitude is Some && !is_blank(p.altitude->0) {
        assert(head + alt =~= head + ","@ + trim(p.altitude->0));
        lemma_begins(head + alt, tail);
    }
}

/// Each of the pieces that a text is the concatenation of occurs in it.
proof fn lemma_line_occurs(begin: Seq<char>, lines: Seq<Seq<char>>, k: int)
    requires
        lines.len() == 10,
        0 <= k < 10,
    ensures
        occurs_in(
            lines[k],
            begin + lines[0] + lines[1] + lines[2] + lines[3] + lines[4] + lines[5] + lines[6]
                + lines[7] + lines[8] + lines[9],
        ),
{
    lemma_concat_prefix_occurs(begin, lines, k);
    lemma_concat_prefix_extend(begin, lines, k + 1, lines[k]);
    lemma_concat_prefix_full(begin, lines);
}

/// `begin` followed by the first `n` pieces.
spec fn concat_prefix(begin: Seq<char>, lines: Seq<Seq<char>>, n: int) -> Seq<char>
    decreases n,
{
    if n <= 0 {
        begin
    } else {
        concat_prefix(begin, lines, n - 1) + lines[n - 1]
    }
}

proof fn lemma_concat_prefix_occurs(begin: Seq<char>, lines: Seq<Seq<char>>, k: int)
    requires
        0 <= k,
    ensures
        occurs_in(lines[k], concat_prefix(begin, lines, k + 1)),
{
    lemma_occurs_at_end(concat_prefix(begin, lines, k), lines[k]);
}

proof fn lemma_concat_prefix_extend(begin: Seq<char>, lines: Seq<Seq<char>>, n: int, x: Seq<char>)
    requires
        0 <= n <= 10,
        occurs_in(x, concat_prefix(begin, lines, n)),
    ensures
        occurs_in(x, concat_prefix(begin, lines, 10)),
    decreases 10 - n,
{
    if n < 10 {
        lemma_occurs_extend(x, concat_prefix(begin, lines, n), lines[n]);
        lemma_concat_prefix_extend(begin, lines, n + 1, x);
    }
}

proof fn lemma_concat_prefix_begins(begin: Seq<char>, lines: Seq<Seq<char>>, n: int)
    requires
        0 <= n,
    ensures
        begins_with(concat_prefix(begin, lines, n), begin),
    decreases n,
{
    if n == 0 {
        lemma_begins(begin, Seq::empty());
        assert(begin + Seq::<char>::empty() =~= begin);
    } else {
        lemma_concat_prefix_begins(begin, lines, n - 1);
        let c = concat_prefix(begin, lines, n - 1);
        assert((c + lines[n - 1]).subrange(0, begin.len() as int) =~= c.subrange(
            0,
            begin.len() as int,
        ));
    }
}

proof fn lemma_concat_prefix_full(begin: Seq<char>, lines: Seq<Seq<char>>)
    ensures
        concat_prefix(begin, lines, 10) == begin + lines[0] + lines[1] + lines[2] + lines[3]
            + lines[4] + lines[5] + lines[6] + lines[7] + lines[8] + lines[9],
{
    reveal_with_fuel(concat_prefix, 11);
}

} // verus!

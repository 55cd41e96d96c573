//! Domain data for the network client and the parsing of its text output:
//! the status summary, the country and city hierarchy, and the cleaning,
//! splitting and field-extraction rules for the client's replies.

use vstd::prelude::*;
use vstd::pervasive::unreached;
use crate::text::{
    chars_of, contains_chars, contains_seq, copy_chars, find_line, first_line_containing,
    lemma_split_from_len, lines_chars, lines_seq, replace_all, replace_chars, split_chars,
    split_seq, string_of,
};

verus! {

/// The fixed control-sequence noise that the client leaves in list output.
pub open spec fn noise_seq() -> Seq<char> {
    "\r-\r  \r\r-\r  \r"@
}

/// `s` with the control-sequence noise and every newline removed.
pub open spec fn clean_seq(s: Seq<char>) -> Seq<char> {
    replace_all(replace_all(s, noise_seq(), Seq::empty()), seq!['\n'], Seq::empty())
}

/// The value extracted for the label `arg`: the first line of `source` in
/// which `arg` occurs (empty if there is none), with every occurrence of
/// `arg` removed and the result cleaned.
pub open spec fn extract_seq(source: Seq<char>, arg: Seq<char>) -> Seq<char> {
    clean_seq(replace_all(first_line_containing(lines_seq(source), arg), arg, Seq::empty()))
}

/// The product banner token that marks a multi-line preamble.
pub open spec fn banner_seq() -> Seq<char> {
    "NordVPN"@
}

/// Client output with an optional preamble stripped: when the banner token
/// occurs, only the content between the first and second period separator is
/// kept (empty when no period follows the banner); otherwise the text is
/// returned whole.
pub open spec fn parse_output_seq(s: Seq<char>) -> Seq<char> {
    if contains_seq(s, banner_seq()) {
        let parts = split_seq(s, "."@);
        if parts.len() >= 2 {
            parts[1]
        } else {
            Seq::empty()
        }
    } else {
        s
    }
}

/// The raw place tokens in a list reply: the reply with its preamble
/// stripped, split on comma-space.
pub open spec fn place_tokens_seq(t: Seq<char>) -> Seq<Seq<char>> {
    split_seq(parse_output_seq(t), ", "@)
}

/// The extracted value of the `Status: ` line of a status reply.
pub open spec fn status_field_seq(t: Seq<char>) -> Seq<char> {
    extract_seq(t, "Status: "@)
}

/// The extracted value of the `IP: ` line of a status reply.
pub open spec fn ip_field_seq(t: Seq<char>) -> Seq<char> {
    extract_seq(t, "IP: "@)
}

/// The extracted value of the `Country: ` line of a status reply.
pub open spec fn country_field_seq(t: Seq<char>) -> Seq<char> {
    extract_seq(t, "Country: "@)
}

/// The extracted value of the `City: ` line of a status reply.
pub open spec fn city_field_seq(t: Seq<char>) -> Seq<char> {
    extract_seq(t, "City: "@)
}

/// The `Transfer: ` value with its comma-space separator turned into a line
/// break, so that the two counters sit on lines of their own.
pub open spec fn transfer_line_seq(t: Seq<char>) -> Seq<char> {
    replace_all(extract_seq(t, "Transfer: "@), ", "@, "\n"@)
}

/// The upload counter of a status reply: the text before " sent".
pub open spec fn transfer_up_seq(t: Seq<char>) -> Seq<char> {
    extract_seq(transfer_line_seq(t), " sent"@)
}

/// The download counter of a status reply: the text before " received".
pub open spec fn transfer_down_seq(t: Seq<char>) -> Seq<char> {
    extract_seq(transfer_line_seq(t), " received"@)
}

/// The `Uptime: ` value in compact clock form: the literal " hours " and
/// " minutes " turned into ":" and " seconds" stripped.
pub open spec fn uptime_seq(t: Seq<char>) -> Seq<char> {
    replace_all(
        replace_all(
            replace_all(extract_seq(t, "Uptime: "@), " hours "@, ":"@),
            " minutes "@,
            ":"@,
        ),
        " seconds"@,
        Seq::empty(),
    )
}

/// A point-in-time summary of the connection, as shown in the status panel.
#[derive(Debug)]
pub struct Status {
    pub status: String,
    pub ip: String,
    pub country: String,
    pub city: String,
    pub transfer: Transfer,
    pub uptime: String,
}

/// The two transfer counters of a status summary, as display strings.
#[derive(Debug)]
pub struct Transfer {
    pub down: String,
    pub up: String,
}

/// A country together with the cities it offers.
#[derive(Debug)]
pub struct Country {
    pub name: String,
    pub cities: Vec<City>,
}

/// A city, known by its display name.
#[derive(Debug)]
pub struct City {
    pub name: String,
}

/// An item that can sit in a selectable list: it exposes a display name.
pub trait NordList {
    /// The display name, as a spec value.
    spec fn spec_name(&self) -> Seq<char>;

    /// The display name.
    fn name(&self) -> (r: String)
        ensures
            r@ == self.spec_name(),
    ;
}

impl NordList for Country {
    open spec fn spec_name(&self) -> Seq<char> {
        self.name@
    }

    fn name(&self) -> (r: String) {
        self.name.clone()
    }
}

impl NordList for City {
    open spec fn spec_name(&self) -> Seq<char> {
        self.name@
    }

    fn name(&self) -> (r: String) {
        self.name.clone()
    }
}

/// The last-fetched status together with the country hierarchy.
#[derive(Debug)]
pub struct Nord {
    pub status: Status,
    pub countries: Vec<Country>,
}

impl Nord {
    /// The first country bearing `name`. The caller must know the name is
    /// present; a missing name is an invariant violation, not a recoverable
    /// state.
    pub fn get_country(&self, name: String) -> (r: &Country)
        requires
            exists|i: int| 0 <= i < self.countries@.len() && self.countries@[i].name@ == name@,
        ensures
            r.name@ == name@,
            exists|i: int| 0 <= i < self.countries@.len() && *r == self.countries@[i],
    {
        let n = self.countries.len();
        let mut i: usize = 0;
        while i < n
            invariant
                i <= n,
                n == self.countries@.len(),
                exists|k: int| 0 <= k < n && self.countries@[k].name@ == name@,
                forall|k: int| 0 <= k < i ==> self.countries@[k].name@ != name@,
            decreases n - i,
        {
            if self.countries[i].name.eq(&name) {
                return &self.countries[i];
            }
            i = i + 1;
        }
        unreached()
    }

    /// Replace the status wholesale with the one parsed from a fresh status
    /// reply; the countries stay as they are.
    pub fn refresh_status(&mut self, output: &str)
        ensures
            final(self).countries@ == old(self).countries@,
            final(self).status.status@ == status_field_seq(output@),
            final(self).status.ip@ == ip_field_seq(output@),
            final(self).status.country@ == country_field_seq(output@),
            final(self).status.city@ == city_field_seq(output@),
            final(self).status.transfer.up@ == transfer_up_seq(output@),
            final(self).status.transfer.down@ == transfer_down_seq(output@),
            final(self).status.uptime@ == uptime_seq(output@),
    {
        self.status = get_status(output);
    }
}

/// Build the aggregate from an already-parsed status and country list.
pub fn init(status: Status, countries: Vec<Country>) -> (r: Nord)
    ensures
        r.status == status,
        r.countries@ == countries@,
{
    Nord { status, countries }
}

/// `input` with the control-sequence noise and every newline removed.
pub fn clean_string(input: &str) -> (r: String)
    ensures
        r@ == clean_seq(input@),
{
    let chars = chars_of(input);
    let cleaned = clean_chars(&chars);
    string_of(&cleaned)
}

/// Character-level form of `clean_string`.
fn clean_chars(s: &Vec<char>) -> (r: Vec<char>)
    ensures
        r@ == clean_seq(s@),
{
    let noise = chars_of("\r-\r  \r\r-\r  \r");
    let mut nl: Vec<char> = Vec::new();
    nl.push('\n');
    proof {
        assert(nl@ =~= seq!['\n']);
    }
    let empty: Vec<char> = Vec::new();
    proof {
        assert(empty@ =~= Seq::<char>::empty());
    }
    let step = replace_chars(s, &noise, &empty);
    replace_chars(&step, &nl, &empty)
}

/// The value of the first line of `source` in which `arg` occurs, with the
/// label removed and the result cleaned; empty when no line matches.
pub fn extract_string(source: &str, arg: &str) -> (r: String)
    ensures
        r@ == extract_seq(source@, arg@),
{
    let sc = chars_of(source);
    let ac = chars_of(arg);
    let ls = lines_chars(&sc);
    let line = find_line(&ls, &ac);
    let empty: Vec<char> = Vec::new();
    proof {
        assert(empty@ =~= Seq::<char>::empty());
    }
    let removed = replace_chars(&line, &ac, &empty);
    let cleaned = clean_chars(&removed);
    string_of(&cleaned)
}

/// The two transfer counters out of the reshaped `Transfer: ` value.
pub fn extract_transfer(result: String) -> (r: Transfer)
    ensures
        r.up@ == extract_seq(result@, " sent"@),
        r.down@ == extract_seq(result@, " received"@),
{
    Transfer {
        up: extract_string(result.as_str(), " sent"),
        down: extract_string(result.as_str(), " received"),
    }
}

/// Character-level form of `parse_output`.
fn parse_output_chars(oc: &Vec<char>) -> (r: Vec<char>)
    ensures
        r@ == parse_output_seq(oc@),
{
    let banner = chars_of("NordVPN");
    if contains_chars(oc, &banner) {
        let dot = chars_of(".");
        proof {
            reveal_strlit(".");
        }
        let parts = split_chars(oc, &dot);
        if parts.len() >= 2 {
            proof {
                assert(parts.deep_view()[1] =~= parts@[1]@);
            }
            return copy_chars(&parts[1]);
        } else {
            return Vec::new();
        }
    }
    copy_chars(oc)
}

/// Client output with an optional banner preamble stripped.
pub fn parse_output(output: String) -> (r: String)
    ensures
        r@ == parse_output_seq(output@),
{
    let oc = chars_of(output.as_str());
    let r = parse_output_chars(&oc);
    string_of(&r)
}

/// The tokens of `input` split on the non-empty separator.
pub fn str_to_vec(input: String, separator: String) -> (r: Vec<String>)
    requires
        separator@.len() > 0,
    ensures
        r.deep_view() == split_seq(input@, separator@),
{
    let ic = chars_of(input.as_str());
    let sc = chars_of(separator.as_str());
    let parts = split_chars(&ic, &sc);
    strings_of(&parts)
}

/// The buffers of `parts`, each as a string.
fn strings_of(parts: &Vec<Vec<char>>) -> (r: Vec<String>)
    ensures
        r.deep_view() == parts.deep_view(),
{
    let mut r: Vec<String> = Vec::new();
    let mut k: usize = 0;
    while k < parts.len()
        invariant
            k <= parts@.len(),
            r.deep_view().len() == k,
            forall|j: int| 0 <= j < k ==> r.deep_view()[j] == parts.deep_view()[j],
        decreases parts@.len() - k,
    {
        let s = string_of(&parts[k]);
        let ghost r0 = r.deep_view();
        let ghost sv = s@;
        r.push(s);
        proof {
            assert(parts@[k as int].deep_view() =~= parts@[k as int]@);
            assert(r.deep_view() =~~= r0.push(sv));
        }
        k = k + 1;
    }
    proof {
        assert(r.deep_view() =~~= parts.deep_view());
    }
    r
}

/// The cities named in a city-list reply, cleaned token by token.
pub fn get_cities(output: &str) -> (r: Vec<City>)
    ensures
        r@.len() == place_tokens_seq(output@).len(),
        forall|i: int|
            0 <= i < r@.len() ==> r@[i].name@ == clean_seq(place_tokens_seq(output@)[i]),
{
    let oc = chars_of(output);
    let po = parse_output_chars(&oc);
    let comma = chars_of(", ");
    proof {
        reveal_strlit(", ");
    }
    let parts = split_chars(&po, &comma);
    let mut r: Vec<City> = Vec::new();
    let mut k: usize = 0;
    while k < parts.len()
        invariant
            k <= parts@.len(),
            parts.deep_view() == place_tokens_seq(oc@),
            parts.deep_view().len() == parts@.len(),
            r@.len() == k,
            forall|j: int| 0 <= j < k ==> r@[j].name@ == clean_seq(place_tokens_seq(oc@)[j]),
        decreases parts@.len() - k,
    {
        let cleaned = clean_chars(&parts[k]);
        proof {
            assert(parts@[k as int].deep_view() =~= parts@[k as int]@);
        }
        r.push(City { name: string_of(&cleaned) });
        k = k + 1;
    }
    r
}

/// The raw country tokens of a country-list reply, preamble stripped and
/// split on comma-space but not yet cleaned: the client is queried for
/// cities with the raw token. There is always at least one token.
pub fn country_tokens(output: &str) -> (r: Vec<String>)
    ensures
        r.deep_view() == place_tokens_seq(output@),
        r@.len() >= 1,
{
    let oc = chars_of(output);
    let po = parse_output_chars(&oc);
    let comma = chars_of(", ");
    proof {
        reveal_strlit(", ");
    }
    let parts = split_chars(&po, &comma);
    proof {
        lemma_split_from_len(po@, comma@, Seq::empty());
    }
    strings_of(&parts)
}

/// The country list assembled from the raw tokens and, for each token, the
/// cities the client listed for it: each country carries the cleaned token
/// as its name.
pub fn get_countries(tokens: &Vec<String>, cities: Vec<Vec<City>>) -> (r: Vec<Country>)
    requires
        tokens@.len() == cities@.len(),
    ensures
        r@.len() == tokens@.len(),
        forall|i: int|
            0 <= i < r@.len() ==> r@[i].name@ == clean_seq(tokens@[i]@) && r@[i].cities@
                == cities@[i]@,
{
    let mut rest = cities;
    let mut r: Vec<Country> = Vec::new();
    let mut k: usize = 0;
    let ghost cities0 = rest@;
    while k < tokens.len()
        invariant
            k <= tokens@.len(),
            tokens@.len() == cities0.len(),
            rest@ == cities0.subrange(k as int, cities0.len() as int),
            r@.len() == k,
            forall|j: int| 0 <= j < k ==> #[trigger] r@[j].name@ == clean_seq(tokens@[j]@),
            forall|j: int| 0 <= j < k ==> #[trigger] r@[j].cities@ == cities0[j]@,
        decreases tokens@.len() - k,
    {
        let name = clean_string(tokens[k].as_str());
        let cs = rest.remove(0);
        proof {
            assert(cs == cities0[k as int]);
            assert(rest@ =~= cities0.subrange(k + 1, cities0.len() as int));
        }
        let ghost r0 = r@;
        r.push(Country { name, cities: cs });
        proof {
            assert(r@[k as int].name@ == clean_seq(tokens@[k as int]@));
            assert(r@[k as int].cities@ == cities0[k as int]@);
            assert(forall|j: int| 0 <= j < k ==> r@[j] == r0[j]);
        }
        k = k + 1;
    }
    r
}

/// The status summary parsed from a status reply. A label whose line is
/// missing yields an empty field, never a failure.
pub fn get_status(output: &str) -> (r: Status)
    ensures
        r.status@ == status_field_seq(output@),
        r.ip@ == ip_field_seq(output@),
        r.country@ == country_field_seq(output@),
        r.city@ == city_field_seq(output@),
        r.transfer.up@ == transfer_up_seq(output@),
        r.transfer.down@ == transfer_down_seq(output@),
        r.uptime@ == uptime_seq(output@),
{
    let transfer_raw = extract_string(output, "Transfer: ");
    let trc = chars_of(transfer_raw.as_str());
    let comma = chars_of(", ");
    let nl = chars_of("\n");
    let transfer_line = replace_chars(&trc, &comma, &nl);
    let transfer = extract_transfer(string_of(&transfer_line));

    let uptime_raw = extract_string(output, "Uptime: ");
    let uc = chars_of(uptime_raw.as_str());
    let hours = chars_of(" hours ");
    let minutes = chars_of(" minutes ");
    let seconds = chars_of(" seconds");
    let colon = chars_of(":");
    let empty: Vec<char> = Vec::new();
    proof {
        assert(empty@ =~= Seq::<char>::empty());
    }
    let u1 = replace_chars(&uc, &hours, &colon);
    let u2 = replace_chars(&u1, &minutes, &colon);
    let u3 = replace_chars(&u2, &seconds, &empty);

    Status {
        status: extract_string(output, "Status: "),
        ip: extract_string(output, "IP: "),
        country: extract_string(output, "Country: "),
        city: extract_string(output, "City: "),
        transfer,
        uptime: string_of(&u3),
    }
}

} // verus!

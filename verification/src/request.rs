//! Requests as they arrive: the address of the client, and what a key can be derived from.

use crate::extractor::{
    find_header, first_header, headers_view, KeyExtractor, RequestInfo, RequestView,
};
use crate::text::{
    chars_of, comma_list, lemma_comma_list_splits, optional_text, same_text, split_commas, text_of,
    texts, trim, trimmed, unicode_lowercase,
};
use vstd::prelude::*;

verus! {

/// Reads addresses.
///
/// Nothing is assumed of an implementation: contracts speak of the values that it returned.
pub trait AddressFormat {
    /// The address that the text spells, in its canonical form, or nothing where it spells none.
    fn canonical(text: &str) -> Option<String>;
}

/// Whether `address` is what the format makes of the text.
pub open spec fn reads<F: AddressFormat>(text: Seq<char>, address: Option<Seq<char>>) -> bool {
    exists|spelt: &str, found: Option<String>|
        #![trigger call_ensures(F::canonical, (spelt,), found)]
        spelt@ == text && call_ensures(F::canonical, (spelt,), found) && optional_text(found)
            == address
}

/// Reads an address.
fn read_address<F: AddressFormat>(text: &str) -> (address: Option<String>)
    ensures
        reads::<F>(text@, optional_text(address)),
{
    let address = F::canonical(text);
    assert(call_ensures(F::canonical, (text,), address));
    address
}

/// The hop that so many trusted proxies leave as that of the client, counted from the right of an
/// `X-Forwarded-For` value: each proxy appends the address that it was called from. Where no proxy
/// is trusted, or there are fewer hops, there is none.
pub open spec fn hop_at(forwarded: Seq<char>, depth: nat) -> Option<Seq<char>> {
    let hops = comma_list(forwarded);
    if depth == 0 || depth > hops.len() {
        None
    } else {
        Some(hops[hops.len() - depth])
    }
}

/// Selects the hop that so many trusted proxies leave as that of the client.
pub fn forwarded_hop(forwarded: &str, depth: usize) -> (hop: Option<String>)
    ensures
        optional_text(hop) == hop_at(forwarded@, depth as nat),
{
    if depth == 0 {
        return None;
    }
    let hops = split_commas(forwarded);
    assert(texts(hops@).len() == hops@.len());
    if depth > hops.len() {
        return None;
    }
    let at: usize = hops.len() - depth;
    assert(texts(hops@)[at as int] == hops@[at as int]@);
    Some(hops[at].clone())
}

/// Whether `address` is that of the client, read from the hop that so many trusted proxies leave.
pub open spec fn forwarded_address<F: AddressFormat>(
    forwarded: Seq<char>,
    depth: nat,
    address: Option<Seq<char>>,
) -> bool {
    match hop_at(forwarded, depth) {
        Some(hop) => reads::<F>(hop, address),
        None => address is None,
    }
}

/// The address of the client in an `X-Forwarded-For` value that so many trusted proxies appended
/// to.
pub fn forwarded_ip_at_depth<F: AddressFormat>(forwarded: &str, depth: usize) -> (address: Option<
    String,
>)
    ensures
        forwarded_address::<F>(forwarded@, depth as nat, optional_text(address)),
{
    match forwarded_hop(forwarded, depth) {
        Some(hop) => read_address::<F>(hop.as_str()),
        None => None,
    }
}

/// The head of a request.
pub struct RequestHead {
    /// The path, with the query where there is one.
    pub target: String,
    /// The method, such as GET or POST.
    pub method: String,
    /// Headers by name and value.
    pub headers: Vec<(String, String)>,
}

/// The mathematical view of a [`RequestHead`].
#[verifier::ext_equal]
pub struct HeadView {
    /// See [`RequestHead::target`].
    pub target: Seq<char>,
    /// See [`RequestHead::method`].
    pub method: Seq<char>,
    /// See [`RequestHead::headers`].
    pub headers: Seq<(Seq<char>, Seq<char>)>,
}

impl View for RequestHead {
    type V = HeadView;

    open spec fn view(&self) -> HeadView {
        HeadView {
            target: self.target@,
            method: self.method@,
            headers: headers_view(self.headers@),
        }
    }
}

/// A target up to its query.
pub open spec fn before_query(target: Seq<char>) -> Seq<char>
    decreases target.len(),
{
    if target.len() == 0 || target.first() == '?' {
        Seq::empty()
    } else {
        seq![target.first()] + before_query(target.drop_first())
    }
}

/// Takes the query off a target.
pub fn path_only(target: &str) -> (path: String)
    ensures
        path@ == before_query(target@),
{
    let chars = chars_of(target);
    let mut end: usize = 0;
    proof {
        assert(target@.skip(0) =~= target@);
        assert(target@.take(0) + before_query(target@) =~= before_query(target@));
    }
    while end < chars.len() && chars[end] != '?'
        invariant
            chars@ == target@,
            end <= chars@.len(),
            target@.take(end as int) + before_query(target@.skip(end as int)) == before_query(
                target@,
            ),
        decreases chars@.len() - end,
    {
        proof {
            let rest = target@.skip(end as int);
            assert(rest.first() == target@[end as int]);
            assert(rest.drop_first() =~= target@.skip(end + 1));
            assert(target@.take(end + 1) + before_query(target@.skip(end + 1)) =~= target@.take(
                end as int,
            ) + (seq![rest.first()] + before_query(rest.drop_first())));
        }
        end += 1;
    }
    proof {
        let rest = target@.skip(end as int);
        if end < chars@.len() {
            assert(rest.first() == target@[end as int]);
        }
        assert(before_query(rest) =~= Seq::empty());
        assert(target@.take(end as int) + Seq::<char>::empty() =~= target@.subrange(
            0,
            end as int,
        ));
    }
    text_of(&chars, 0, end)
}

/// Whether `address` is that of the client, where so many proxies are trusted: the one that
/// `X-Forwarded-For` tells, else the one that `X-Real-IP` tells. Where none is trusted the headers
/// are ignored, since clients can write them themselves.
pub open spec fn client_address<F: AddressFormat>(
    headers: Seq<(Seq<char>, Seq<char>)>,
    depth: nat,
    address: Option<Seq<char>>,
) -> bool {
    if depth == 0 {
        address is None
    } else {
        exists|forwarded: Option<Seq<char>>|
            #![trigger header_address::<F>(headers, depth, forwarded)]
            header_address::<F>(headers, depth, forwarded) && if forwarded is Some {
                address == forwarded
            } else {
                match first_header(headers, "x-real-ip"@) {
                    Some(told) => reads::<F>(trimmed(told), address),
                    None => address is None,
                }
            }
    }
}

/// Whether `address` is the one that `X-Forwarded-For` tells.
pub open spec fn header_address<F: AddressFormat>(
    headers: Seq<(Seq<char>, Seq<char>)>,
    depth: nat,
    address: Option<Seq<char>>,
) -> bool {
    match first_header(headers, "x-forwarded-for"@) {
        Some(forwarded) => forwarded_address::<F>(forwarded, depth, address),
        None => address is None,
    }
}

/// The address of the client, where so many proxies are trusted.
pub fn client_ip<F: AddressFormat>(headers: &[(String, String)], depth: usize) -> (address: Option<
    String,
>)
    ensures
        client_address::<F>(headers_view(headers@), depth as nat, optional_text(address)),
{
    if depth == 0 {
        return None;
    }
    let forwarded = match find_header(headers, "x-forwarded-for") {
        Some(forwarded) => forwarded_ip_at_depth::<F>(forwarded, depth),
        None => None,
    };
    assert(header_address::<F>(headers_view(headers@), depth as nat, optional_text(forwarded)));
    if forwarded.is_some() {
        return forwarded;
    }
    match find_header(headers, "x-real-ip") {
        Some(told) => read_address::<F>(trim(told).as_str()),
        None => None,
    }
}

/// What is known of a request with the given head and address: the path without its query, the
/// user and the API key that headers tell, and the header that the extractor reads.
pub open spec fn known_of(
    head: HeadView,
    extractor: KeyExtractor,
    address: Option<Seq<char>>,
) -> RequestView {
    RequestView {
        ip: address,
        path: before_query(head.target),
        method: head.method,
        user_id: first_header(head.headers, "x-user-id"@),
        api_key: match first_header(head.headers, "x-api-key"@) {
            Some(key) => Some(key),
            None => first_header(head.headers, "authorization"@),
        },
        headers: match extractor.header_read() {
            Some(name) => match first_header(head.headers, name) {
                Some(value) => seq![(name, value)],
                None => Seq::empty(),
            },
            None => Seq::empty(),
        },
    }
}

/// Gathers what is known of a request.
pub fn request_info(
    head: &RequestHead,
    extractor: &KeyExtractor,
    address: Option<String>,
) -> (info: RequestInfo)
    ensures
        info@ == known_of(head@, *extractor, optional_text(address)),
{
    let headers = head.headers.as_slice();
    let mut info = RequestInfo::new(path_only(head.target.as_str()).as_str(), head.method.as_str());
    if let Some(address) = address {
        info = info.with_ip(address.as_str());
    }
    if let Some(user_id) = find_header(headers, "x-user-id") {
        info = info.with_user_id(user_id);
    }
    if let Some(name) = extractor.required_header() {
        if let Some(value) = find_header(headers, name) {
            info = info.with_header(name, value);
            assert(info@.headers =~= seq![(name@, value@)]);
        }
    }
    if let Some(key) = find_header(headers, "x-api-key") {
        info = info.with_api_key(key);
    } else if let Some(key) = find_header(headers, "authorization") {
        info = info.with_api_key(key);
    }
    info
}

/// The value of the first header whose name is, in lower case, one of those that carry API keys.
pub open spec fn api_key_told(headers: Seq<(Seq<char>, Seq<char>)>) -> Option<Seq<char>>
    decreases headers.len(),
{
    if headers.len() == 0 {
        None
    } else if unicode_lowercase(headers.first().0) == "x-api-key"@ || unicode_lowercase(
        headers.first().0,
    ) == "authorization"@ {
        Some(headers.first().1)
    } else {
        api_key_told(headers.drop_first())
    }
}

/// Finds the first header whose name is, in lower case, one of those that carry API keys.
pub(crate) fn find_api_key(headers: &[(String, String)]) -> (key: Option<String>)
    ensures
        optional_text(key) == api_key_told(headers_view(headers@)),
{
    let ghost all = headers_view(headers@);
    let mut i: usize = 0;
    assert(all.skip(0) =~= all);
    while i < headers.len()
        invariant
            i <= headers@.len(),
            all == headers_view(headers@),
            api_key_told(all.skip(i as int)) == api_key_told(all),
        decreases headers@.len() - i,
    {
        assert(all.skip(i as int).first() == all[i as int]);
        assert(all.skip(i as int).drop_first() =~= all.skip(i + 1));
        let name = headers[i].0.as_str().to_lowercase();
        if same_text(name.as_str(), "x-api-key") || same_text(name.as_str(), "authorization") {
            return Some(headers[i].1.clone());
        }
        i += 1;
    }
    None
}

/// Copies headers onto what is known of a request.
pub(crate) fn with_headers(info: RequestInfo, headers: &[(String, String)]) -> (all: RequestInfo)
    ensures
        all@ == (RequestView { headers: info@.headers + headers_view(headers@), ..info@ }),
{
    let mut all = info;
    let ghost told = headers_view(headers@);
    let mut i: usize = 0;
    assert(info@.headers + told.take(0) =~= info@.headers);
    while i < headers.len()
        invariant
            i <= headers@.len(),
            told == headers_view(headers@),
            all@ == (RequestView { headers: info@.headers + told.take(i as int), ..info@ }),
        decreases headers@.len() - i,
    {
        all = all.with_header(headers[i].0.as_str(), headers[i].1.as_str());
        assert(told.take(i + 1) =~= told.take(i as int).push(told[i as int]));
        assert(all@.headers =~= info@.headers + told.take(i + 1));
        i += 1;
    }
    assert(told.take(i as int) =~= told);
    all
}

/// The hop of a request that trusted proxies leave as that of the client.
pub open spec fn trusted_hop(headers: Seq<(Seq<char>, Seq<char>)>, depth: nat) -> Option<
    Seq<char>,
> {
    match first_header(headers, "x-forwarded-for"@) {
        Some(forwarded) => hop_at(forwarded, depth),
        None => None,
    }
}

/// Whether a format reads one text alike each time.
pub open spec fn reads_alike<F: AddressFormat>() -> bool {
    forall|text: Seq<char>, a: Option<Seq<char>>, b: Option<Seq<char>>| #[trigger]
        reads::<F>(text, a) && #[trigger] reads::<F>(text, b) ==> a == b
}

/// Two requests with the same trusted hop come from the same address. Where the hop spells no
/// address, `X-Real-IP` is read in its place, and has to be the same.
pub proof fn law_shared_hop_shares_address<F: AddressFormat>(
    headers: Seq<(Seq<char>, Seq<char>)>,
    other_headers: Seq<(Seq<char>, Seq<char>)>,
    depth: nat,
    address: Option<Seq<char>>,
    other_address: Option<Seq<char>>,
)
    requires
        reads_alike::<F>(),
        client_address::<F>(headers, depth, address),
        client_address::<F>(other_headers, depth, other_address),
        trusted_hop(headers, depth) is Some,
        trusted_hop(other_headers, depth) == trusted_hop(headers, depth),
        reads::<F>(trusted_hop(headers, depth)->0, None) ==> first_header(
            headers,
            "x-real-ip"@,
        ) == first_header(other_headers, "x-real-ip"@),
    ensures
        address == other_address,
{
    let a = choose|forwarded: Option<Seq<char>>|
        #![trigger header_address::<F>(headers, depth, forwarded)]
        header_address::<F>(headers, depth, forwarded) && if forwarded is Some {
            address == forwarded
        } else {
            match first_header(headers, "x-real-ip"@) {
                Some(told) => reads::<F>(trimmed(told), address),
                None => address is None,
            }
        };
    let b = choose|forwarded: Option<Seq<char>>|
        #![trigger header_address::<F>(other_headers, depth, forwarded)]
        header_address::<F>(other_headers, depth, forwarded) && if forwarded is Some {
            other_address == forwarded
        } else {
            match first_header(other_headers, "x-real-ip"@) {
                Some(told) => reads::<F>(trimmed(told), other_address),
                None => other_address is None,
            }
        };
    assert(header_address::<F>(headers, depth, a));
    assert(header_address::<F>(other_headers, depth, b));
    let hop = trusted_hop(headers, depth)->0;
    assert(reads::<F>(hop, a) && reads::<F>(hop, b));
}

/// Where no proxy is trusted, no hop is.
pub proof fn law_no_proxy_trusts_no_hop(forwarded: Seq<char>)
    ensures
        hop_at(forwarded, 0) is None,
{
}

/// A client cannot move the hop that is read by writing hops of its own: what stands to the left of
/// the hops that trusted proxies appended does not matter.
pub proof fn law_forged_hops_do_not_matter(forged: Seq<char>, appended: Seq<char>, depth: nat)
    requires
        depth <= comma_list(appended).len(),
    ensures
        hop_at(forged.push(',') + appended, depth) == hop_at(appended, depth),
{
    lemma_comma_list_splits(forged, appended);
}

/// A client cannot change the path of its request by adding a query.
pub proof fn law_query_does_not_matter(path: Seq<char>, query: Seq<char>)
    ensures
        before_query(path.push('?') + query) == before_query(path),
    decreases path.len(),
{
    let target = path.push('?') + query;
    if path.len() > 0 {
        assert(target.first() == path.first());
        assert(target.drop_first() =~= path.drop_first().push('?') + query);
        law_query_does_not_matter(path.drop_first(), query);
    } else {
        assert(target.first() == '?');
    }
}

/// What is known of a request gives its extractor what the whole head would have given it: the
/// header that the extractor reads is there, whatever the case of its name.
pub proof fn law_extractor_finds_its_header(
    head: HeadView,
    extractor: KeyExtractor,
    address: Option<Seq<char>>,
)
    ensures
        extractor.extracted(known_of(head, extractor, address)) == extractor.extracted(
            (RequestView { headers: head.headers, ..known_of(head, extractor, address) }),
        ),
{
    if let Some(name) = extractor.header_read() {
        reveal_with_fuel(first_header, 2);
        let known = known_of(head, extractor, address).headers;
        if let Some(value) = first_header(head.headers, name) {
            assert(known.first() == (name, value));
        }
    }
}

} // verus!

//! Keys: how the key of a request is derived from what is known of the request.

use crate::text::{
    colon_joined, copy_optional, eq_ignore_ascii_case, join_colon, optional_text,
    same_ignoring_ascii_case,
};
use vstd::prelude::*;

verus! {

/// What is known of a request.
#[derive(Debug)]
pub struct RequestInfo {
    /// The address of the client, as text.
    pub ip: Option<String>,
    /// The path.
    pub path: String,
    /// The method, such as GET or POST.
    pub method: String,
    /// The user, where the request is authenticated.
    pub user_id: Option<String>,
    /// The API key.
    pub api_key: Option<String>,
    /// Headers by name and value.
    pub headers: Vec<(String, String)>,
}

/// The mathematical view of a [`RequestInfo`].
#[verifier::ext_equal]
pub struct RequestView {
    /// See [`RequestInfo::ip`].
    pub ip: Option<Seq<char>>,
    /// See [`RequestInfo::path`].
    pub path: Seq<char>,
    /// See [`RequestInfo::method`].
    pub method: Seq<char>,
    /// See [`RequestInfo::user_id`].
    pub user_id: Option<Seq<char>>,
    /// See [`RequestInfo::api_key`].
    pub api_key: Option<Seq<char>>,
    /// See [`RequestInfo::headers`].
    pub headers: Seq<(Seq<char>, Seq<char>)>,
}

/// The views of a list of headers.
pub open spec fn headers_view(headers: Seq<(String, String)>) -> Seq<(Seq<char>, Seq<char>)> {
    headers.map_values(|header: (String, String)| (header.0@, header.1@))
}

/// The value of the first header with the given name, whatever the case of its ASCII letters.
pub open spec fn first_header(
    headers: Seq<(Seq<char>, Seq<char>)>,
    name: Seq<char>,
) -> Option<Seq<char>>
    decreases headers.len(),
{
    if headers.len() == 0 {
        None
    } else if same_ignoring_ascii_case(headers.first().0, name) {
        Some(headers.first().1)
    } else {
        first_header(headers.drop_first(), name)
    }
}

impl View for RequestInfo {
    type V = RequestView;

    open spec fn view(&self) -> RequestView {
        RequestView {
            ip: optional_text(self.ip),
            path: self.path@,
            method: self.method@,
            user_id: optional_text(self.user_id),
            api_key: optional_text(self.api_key),
            headers: headers_view(self.headers@),
        }
    }
}

impl Clone for RequestInfo {
    fn clone(&self) -> (info: RequestInfo)
        ensures
            info@ == self@,
    {
        let mut headers: Vec<(String, String)> = Vec::new();
        let mut i: usize = 0;
        while i < self.headers.len()
            invariant
                i <= self.headers@.len(),
                headers@ == self.headers@.take(i as int),
            decreases self.headers@.len() - i,
        {
            headers.push((self.headers[i].0.clone(), self.headers[i].1.clone()));
            i += 1;
        }
        RequestInfo {
            ip: copy_optional(&self.ip),
            path: self.path.clone(),
            method: self.method.clone(),
            user_id: copy_optional(&self.user_id),
            api_key: copy_optional(&self.api_key),
            headers,
        }
    }
}

/// Finds the first header with the given name.
pub fn find_header<'a>(headers: &'a [(String, String)], name: &str) -> (value: Option<&'a str>)
    ensures
        value is Some == first_header(headers_view(headers@), name@) is Some,
        value is Some ==> value->0@ == first_header(headers_view(headers@), name@)->0,
{
    let ghost all = headers_view(headers@);
    let mut i: usize = 0;
    assert(all.skip(0) =~= all);
    while i < headers.len()
        invariant
            i <= headers@.len(),
            all == headers_view(headers@),
            first_header(all.skip(i as int), name@) == first_header(all, name@),
        decreases headers@.len() - i,
    {
        assert(all.skip(i as int).first() == all[i as int]);
        assert(all.skip(i as int).drop_first() =~= all.skip(i + 1));
        if eq_ignore_ascii_case(headers[i].0.as_str(), name) {
            return Some(headers[i].1.as_str());
        }
        i += 1;
    }
    None
}

impl RequestInfo {
    /// A request of which only the path and the method are known.
    pub fn new(path: &str, method: &str) -> (info: RequestInfo)
        ensures
            info@ == (RequestView {
                ip: None,
                path: path@,
                method: method@,
                user_id: None,
                api_key: None,
                headers: Seq::empty(),
            }),
    {
        let info = RequestInfo {
            ip: None,
            path: path.to_owned(),
            method: method.to_owned(),
            user_id: None,
            api_key: None,
            headers: Vec::new(),
        };
        assert(info@.headers =~= Seq::empty());
        info
    }

    /// Sets the address of the client.
    pub fn with_ip(self, ip: &str) -> (info: RequestInfo)
        ensures
            info@ == (RequestView { ip: Some(ip@), ..self@ }),
    {
        let mut info = self;
        info.ip = Some(ip.to_owned());
        info
    }

    /// Sets the user.
    pub fn with_user_id(self, user_id: &str) -> (info: RequestInfo)
        ensures
            info@ == (RequestView { user_id: Some(user_id@), ..self@ }),
    {
        let mut info = self;
        info.user_id = Some(user_id.to_owned());
        info
    }

    /// Sets the API key.
    pub fn with_api_key(self, api_key: &str) -> (info: RequestInfo)
        ensures
            info@ == (RequestView { api_key: Some(api_key@), ..self@ }),
    {
        let mut info = self;
        info.api_key = Some(api_key.to_owned());
        info
    }

    /// Adds a header.
    pub fn with_header(self, name: &str, value: &str) -> (info: RequestInfo)
        ensures
            info@ == (RequestView { headers: self@.headers.push((name@, value@)), ..self@ }),
    {
        let mut info = self;
        info.headers.push((name.to_owned(), value.to_owned()));
        assert(info@.headers =~= self@.headers.push((name@, value@)));
        info
    }

    /// The value of the first header with the given name, whatever the case of its ASCII letters.
    pub fn get_header(&self, name: &str) -> (value: Option<&str>)
        ensures
            value is Some == first_header(self@.headers, name@) is Some,
            value is Some ==> value->0@ == first_header(self@.headers, name@)->0,
    {
        find_header(self.headers.as_slice(), name)
    }
}

/// How a key is derived from a request.
#[derive(Debug)]
pub enum KeyExtractor {
    /// The address of the client.
    Ip,
    /// The user.
    UserId,
    /// The header that carries the API key.
    ApiKey {
        /// The name of the header.
        header_name: String,
    },
    /// Some other header.
    Header {
        /// The name of the header.
        name: String,
    },
    /// The address of the client and the path, for limits per endpoint.
    IpAndPath,
    /// The user and the path, for limits per endpoint.
    UserIdAndPath,
}

impl Clone for KeyExtractor {
    fn clone(&self) -> (extractor: KeyExtractor)
        ensures
            extractor == *self,
    {
        match self {
            KeyExtractor::Ip => KeyExtractor::Ip,
            KeyExtractor::UserId => KeyExtractor::UserId,
            KeyExtractor::ApiKey { header_name } => KeyExtractor::ApiKey {
                header_name: header_name.clone(),
            },
            KeyExtractor::Header { name } => KeyExtractor::Header { name: name.clone() },
            KeyExtractor::IpAndPath => KeyExtractor::IpAndPath,
            KeyExtractor::UserIdAndPath => KeyExtractor::UserIdAndPath,
        }
    }
}

impl Default for KeyExtractor {
    fn default() -> (extractor: KeyExtractor)
        ensures
            extractor == KeyExtractor::Ip,
    {
        KeyExtractor::Ip
    }
}

impl KeyExtractor {
    /// The key of a request, where the request has what the extractor reads.
    pub open spec fn extracted(self, info: RequestView) -> Option<Seq<char>> {
        match self {
            KeyExtractor::Ip => info.ip,
            KeyExtractor::UserId => info.user_id,
            KeyExtractor::ApiKey { header_name } => first_header(info.headers, header_name@),
            KeyExtractor::Header { name } => first_header(info.headers, name@),
            KeyExtractor::IpAndPath => match info.ip {
                Some(ip) => Some(colon_joined(ip, info.path)),
                None => None,
            },
            KeyExtractor::UserIdAndPath => match info.user_id {
                Some(user_id) => Some(colon_joined(user_id, info.path)),
                None => None,
            },
        }
    }

    /// The header that the extractor reads, if it reads one.
    pub open spec fn header_read(self) -> Option<Seq<char>> {
        match self {
            KeyExtractor::ApiKey { header_name } => Some(header_name@),
            KeyExtractor::Header { name } => Some(name@),
            _ => None,
        }
    }

    /// What the extractor reads, for people to read.
    pub open spec fn described(self) -> Seq<char> {
        match self {
            KeyExtractor::Ip => "IP address"@,
            KeyExtractor::UserId => "User ID"@,
            KeyExtractor::ApiKey { .. } => "API key"@,
            KeyExtractor::Header { .. } => "Custom header"@,
            KeyExtractor::IpAndPath => "IP + Path"@,
            KeyExtractor::UserIdAndPath => "User ID + Path"@,
        }
    }

    /// Keys by the address of the client.
    pub fn ip() -> (extractor: KeyExtractor)
        ensures
            extractor == KeyExtractor::Ip,
    {
        KeyExtractor::Ip
    }

    /// Keys by user.
    pub fn user_id() -> (extractor: KeyExtractor)
        ensures
            extractor == KeyExtractor::UserId,
    {
        KeyExtractor::UserId
    }

    /// Keys by API key.
    pub fn api_key(header_name: &str) -> (extractor: KeyExtractor)
        ensures
            extractor matches KeyExtractor::ApiKey { header_name: name } && name@ == header_name@,
    {
        KeyExtractor::ApiKey { header_name: header_name.to_owned() }
    }

    /// Keys by a header.
    pub fn header(name: &str) -> (extractor: KeyExtractor)
        ensures
            extractor matches KeyExtractor::Header { name: header } && header@ == name@,
    {
        KeyExtractor::Header { name: name.to_owned() }
    }

    /// Keys by the address of the client and the path.
    pub fn ip_and_path() -> (extractor: KeyExtractor)
        ensures
            extractor == KeyExtractor::IpAndPath,
    {
        KeyExtractor::IpAndPath
    }

    /// Keys by user and path.
    pub fn user_id_and_path() -> (extractor: KeyExtractor)
        ensures
            extractor == KeyExtractor::UserIdAndPath,
    {
        KeyExtractor::UserIdAndPath
    }

    /// Derives the key of a request.
    pub fn extract(&self, info: &RequestInfo) -> (key: Option<String>)
        ensures
            optional_text(key) == self.extracted(info@),
    {
        match self {
            KeyExtractor::Ip => copy_optional(&info.ip),
            KeyExtractor::UserId => copy_optional(&info.user_id),
            KeyExtractor::ApiKey { header_name } => match info.get_header(header_name.as_str()) {
                Some(value) => Some(value.to_owned()),
                None => None,
            },
            KeyExtractor::Header { name } => match info.get_header(name.as_str()) {
                Some(value) => Some(value.to_owned()),
                None => None,
            },
            KeyExtractor::IpAndPath => match &info.ip {
                Some(ip) => Some(join_colon(ip.as_str(), info.path.as_str())),
                None => None,
            },
            KeyExtractor::UserIdAndPath => match &info.user_id {
                Some(user_id) => Some(join_colon(user_id.as_str(), info.path.as_str())),
                None => None,
            },
        }
    }

    /// The header that the extractor reads, if it reads one.
    pub fn required_header(&self) -> (name: Option<&str>)
        ensures
            name is Some == self.header_read() is Some,
            name is Some ==> name->0@ == self.header_read()->0,
    {
        match self {
            KeyExtractor::ApiKey { header_name } => Some(header_name.as_str()),
            KeyExtractor::Header { name } => Some(name.as_str()),
            _ => None,
        }
    }

    /// What the extractor reads, for people to read.
    pub fn description(&self) -> (text: &str)
        ensures
            text@ == self.described(),
    {
        match self {
            KeyExtractor::Ip => "IP address",
            KeyExtractor::UserId => "User ID",
            KeyExtractor::ApiKey { .. } => "API key",
            KeyExtractor::Header { .. } => "Custom header",
            KeyExtractor::IpAndPath => "IP + Path",
            KeyExtractor::UserIdAndPath => "User ID + Path",
        }
    }
}

/// The key that the first of the extractors finds that finds one.
pub open spec fn first_key(extractors: Seq<KeyExtractor>, info: RequestView) -> Option<Seq<char>>
    decreases extractors.len(),
{
    if extractors.len() == 0 {
        None
    } else if extractors.first().extracted(info) is Some {
        extractors.first().extracted(info)
    } else {
        first_key(extractors.drop_first(), info)
    }
}

/// Tries the extractors in order.
pub fn extract_first(extractors: &Vec<KeyExtractor>, info: &RequestInfo) -> (key: Option<String>)
    ensures
        optional_text(key) == first_key(extractors@, info@),
{
    let mut i: usize = 0;
    assert(extractors@.skip(0) =~= extractors@);
    while i < extractors.len()
        invariant
            i <= extractors@.len(),
            first_key(extractors@.skip(i as int), info@) == first_key(extractors@, info@),
        decreases extractors@.len() - i,
    {
        assert(extractors@.skip(i as int).first() == extractors@[i as int]);
        assert(extractors@.skip(i as int).drop_first() =~= extractors@.skip(i + 1));
        let key = extractors[i].extract(info);
        if key.is_some() {
            return key;
        }
        i += 1;
    }
    None
}

/// Puts several extractors together.
pub struct KeyExtractorBuilder {
    extractors: Vec<KeyExtractor>,
    fallback_to_ip: bool,
}

impl KeyExtractorBuilder {
    /// The extractors, in the order in which they are tried.
    pub closed spec fn tried(self) -> Seq<KeyExtractor> {
        self.extractors@
    }

    /// Whether the address of the client is the key where no extractor finds one.
    pub closed spec fn falls_back(self) -> bool {
        self.fallback_to_ip
    }

    /// The key of a request.
    pub open spec fn extracted(self, info: RequestView) -> Option<Seq<char>> {
        if first_key(self.tried(), info) is Some {
            first_key(self.tried(), info)
        } else if self.falls_back() {
            info.ip
        } else {
            None
        }
    }

    /// No extractors, and a fallback to the address of the client.
    pub fn new() -> (builder: KeyExtractorBuilder)
        ensures
            builder.tried() == Seq::<KeyExtractor>::empty(),
            builder.falls_back(),
    {
        KeyExtractorBuilder { extractors: Vec::new(), fallback_to_ip: true }
    }

    /// Adds an extractor, to be tried after those that are there.
    pub fn with_extractor(self, extractor: KeyExtractor) -> (builder: KeyExtractorBuilder)
        ensures
            builder.tried() == self.tried().push(extractor),
            builder.falls_back() == self.falls_back(),
    {
        let mut builder = self;
        builder.extractors.push(extractor);
        builder
    }

    /// Adds keys by user.
    pub fn prefer_user_id(self) -> (builder: KeyExtractorBuilder)
        ensures
            builder.tried() == self.tried().push(KeyExtractor::UserId),
            builder.falls_back() == self.falls_back(),
    {
        self.with_extractor(KeyExtractor::UserId)
    }

    /// Adds keys by API key.
    pub fn prefer_api_key(self, header_name: &str) -> (builder: KeyExtractorBuilder)
        ensures
            builder.tried().drop_last() == self.tried(),
            builder.tried().len() == self.tried().len() + 1,
            builder.tried().last() matches KeyExtractor::ApiKey { header_name: name } && name@
                == header_name@,
            builder.falls_back() == self.falls_back(),
    {
        let builder = self.with_extractor(KeyExtractor::api_key(header_name));
        assert(builder.tried().drop_last() =~= self.tried());
        builder
    }

    /// Takes the fallback to the address of the client away.
    pub fn no_ip_fallback(self) -> (builder: KeyExtractorBuilder)
        ensures
            builder.tried() == self.tried(),
            !builder.falls_back(),
    {
        let mut builder = self;
        builder.fallback_to_ip = false;
        builder
    }

    /// The function that derives the key of a request: it tries the extractors in order.
    pub fn build(self) -> (extract: impl Fn(&RequestInfo) -> Option<String>)
        ensures
            forall|info: &RequestInfo| call_requires(extract, (info,)),
            forall|info: &RequestInfo, key: Option<String>|
                call_ensures(extract, (info,), key) ==> optional_text(key) == self.extracted(info@),
    {
        let ghost builder = self;
        let extractors = self.extractors;
        let fallback_to_ip: bool = self.fallback_to_ip;
        move |info: &RequestInfo| -> (key: Option<String>)
            ensures
                optional_text(key) == builder.extracted(info@),
            {
                let key = extract_first(&extractors, info);
                if key.is_some() {
                    key
                } else if fallback_to_ip {
                    copy_optional(&info.ip)
                } else {
                    None
                }
            }
    }
}

impl Default for KeyExtractorBuilder {
    fn default() -> (builder: KeyExtractorBuilder)
        ensures
            builder.tried() == Seq::<KeyExtractor>::empty(),
            builder.falls_back(),
    {
        KeyExtractorBuilder::new()
    }
}

/// A request keeps its key when headers are added that the extractor does not read.
pub proof fn law_unread_headers_do_not_matter(
    extractor: KeyExtractor,
    info: RequestView,
    name: Seq<char>,
    value: Seq<char>,
)
    requires
        extractor.header_read() is Some ==> !same_ignoring_ascii_case(
            name,
            extractor.header_read()->0,
        ),
    ensures
        extractor.extracted(RequestView { headers: info.headers.push((name, value)), ..info })
            == extractor.extracted(info),
{
    if extractor.header_read() is Some {
        lemma_other_header(info.headers, extractor.header_read()->0, name, value);
    }
}

/// A header with another name is not found.
proof fn lemma_other_header(
    headers: Seq<(Seq<char>, Seq<char>)>,
    sought: Seq<char>,
    name: Seq<char>,
    value: Seq<char>,
)
    requires
        !same_ignoring_ascii_case(name, sought),
    ensures
        first_header(headers.push((name, value)), sought) == first_header(headers, sought),
    decreases headers.len(),
{
    reveal_with_fuel(first_header, 2);
    let more = headers.push((name, value));
    if headers.len() > 0 {
        assert(more.first() == headers.first());
        assert(more.drop_first() =~= headers.drop_first().push((name, value)));
        lemma_other_header(headers.drop_first(), sought, name, value);
    } else {
        assert(more.first() == (name, value));
        assert(more.drop_first() =~= Seq::empty());
    }
}

/// Header names are found whatever the case of their ASCII letters.
pub proof fn law_header_names_ignore_case(info: RequestView, a: Seq<char>, b: Seq<char>)
    requires
        same_ignoring_ascii_case(a, b),
    ensures
        first_header(info.headers, a) == first_header(info.headers, b),
{
    lemma_header_case(info.headers, a, b);
}

/// The same, for a list of headers.
proof fn lemma_header_case(headers: Seq<(Seq<char>, Seq<char>)>, a: Seq<char>, b: Seq<char>)
    requires
        same_ignoring_ascii_case(a, b),
    ensures
        first_header(headers, a) == first_header(headers, b),
    decreases headers.len(),
{
    if headers.len() > 0 {
        lemma_header_case(headers.drop_first(), a, b);
    }
}

/// An extractor that is tried earlier is preferred: where it finds a key, that is the key.
pub proof fn law_earlier_extractors_win(
    extractors: Seq<KeyExtractor>,
    more: Seq<KeyExtractor>,
    info: RequestView,
)
    requires
        first_key(extractors, info) is Some,
    ensures
        first_key(extractors + more, info) == first_key(extractors, info),
    decreases extractors.len(),
{
    if extractors.len() > 0 {
        assert((extractors + more).first() == extractors.first());
        assert((extractors + more).drop_first() =~= extractors.drop_first() + more);
        if extractors.first().extracted(info) is None {
            law_earlier_extractors_win(extractors.drop_first(), more, info);
        }
    }
}

} // verus!

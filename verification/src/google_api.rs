use vstd::prelude::*;
use vstd::string::*;
use crate::clock::Timestamp;
use crate::my_db::{distinct_keys, find, lookup, put, upsert_all};
use crate::text::{join, joined};

verus! {

/// What the remote side has handed this program to know it by.
#[derive(Debug, PartialEq, Eq)]
pub struct GoogleCredentials {
    pub web: GoogleWebCredentials,
}

/// The program's name and secret at the remote side, and the addresses at
/// which a user grants access and at which tokens are given out.
#[derive(Debug, PartialEq, Eq)]
pub struct GoogleWebCredentials {
    pub client_id: String,
    pub client_secret: String,
    pub auth_uri: String,
    pub token_uri: String,
    pub redirect_uris: Vec<String>,
}

/// A token as the remote side gives it out.
#[derive(Debug, PartialEq, Eq)]
pub struct GoogleApiToken {
    pub access_token: String,
    /// Seconds for which the access token holds.
    pub expires_in: u32,
    pub refresh_token: String,
    pub scope: String,
    pub token_type: String,
}

impl Clone for GoogleApiToken {
    fn clone(&self) -> (copy: Self)
        ensures
            copy == *self,
    {
        GoogleApiToken {
            access_token: self.access_token.clone(),
            expires_in: self.expires_in,
            refresh_token: self.refresh_token.clone(),
            scope: self.scope.clone(),
            token_type: self.token_type.clone(),
        }
    }
}

/// A token and the time at which it was given out.
#[derive(Debug, PartialEq, Eq)]
pub struct GoogleToken {
    pub token: GoogleApiToken,
    pub token_created_at: Timestamp,
}

impl Clone for GoogleToken {
    fn clone(&self) -> (copy: Self)
        ensures
            copy == *self,
    {
        GoogleToken { token: self.token.clone(), token_created_at: self.token_created_at }
    }
}

/// What the remote side answers when a token is renewed.
#[derive(Debug, PartialEq, Eq)]
pub struct RefreshToken {
    pub expires_in: u32,
    pub access_token: String,
    pub token_type: String,
}

/// The code that the remote side hands over once the user has granted
/// access.
#[derive(Debug, PartialEq, Eq)]
pub struct GoogleAuthorizationCode(pub String);

/// What is to be done before the remote side can be asked for anything.
#[derive(Clone, Copy, Debug, PartialEq, Eq, Structural)]
pub enum AuthStep {
    /// There is no token: the user has to grant access.
    Authenticate,
    /// The token has run out: it has to be renewed.
    Renew,
    /// The token holds.
    Ready,
}

/// The program's credentials and the token that it holds, if any.
#[derive(Debug, PartialEq, Eq)]
pub struct GoogleAuthApi {
    pub credentials: GoogleCredentials,
    pub token: Option<GoogleToken>,
}

/// The address to which the remote side sends the user back.
pub open spec fn callback_url() -> Seq<char> {
    "http://localhost:3001/oauth2redirect"@
}

/// The address to which the remote side sends the user back.
pub fn callback_address() -> (address: &'static str)
    ensures
        address@ == callback_url(),
{
    "http://localhost:3001/oauth2redirect"
}

impl GoogleToken {
    /// Whole seconds from the token's making to `now`.
    pub open spec fn age_seconds(&self, now: Timestamp) -> int {
        now.millis_since(self.token_created_at) / 1000
    }

    /// Whether the token has run out at `now`: more whole seconds have
    /// passed since its making than it was given.
    pub open spec fn expired_at(&self, now: Timestamp) -> bool {
        self.age_seconds(now) > self.token.expires_in
    }

    /// Whether the token has run out at `now`.
    pub fn is_expired_at(&self, now: Timestamp) -> (expired: bool)
        ensures
            expired == self.expired_at(now),
    {
        let span: i128 = now.millis as i128 - self.token_created_at.millis as i128;
        let limit: i128 = (self.token.expires_in as i128 + 1) * 1000;
        span >= limit
    }

    /// Whether the token has run out by the system clock.
    pub fn is_expired(&self) -> (expired: bool)
        ensures
            exists|now: Timestamp| expired == #[trigger] self.expired_at(now),
    {
        let now = Timestamp::now();
        let expired = self.is_expired_at(now);
        expired
    }
}

impl GoogleAuthApi {
    /// The program's standing with the remote side, from what was read of
    /// its credentials and of a token kept from an earlier run.
    pub fn create(credentials: GoogleCredentials, token: Option<GoogleToken>) -> (api: Self)
        ensures
            api.credentials == credentials,
            api.token == token,
    {
        GoogleAuthApi { credentials, token }
    }

    /// What is to be done at `now` before the remote side can be asked.
    pub open spec fn step_at(&self, now: Timestamp) -> AuthStep {
        match self.token {
            None => AuthStep::Authenticate,
            Some(token) => if token.expired_at(now) {
                AuthStep::Renew
            } else {
                AuthStep::Ready
            },
        }
    }

    /// What is to be done at `now` before the remote side can be asked:
    /// without a token the user has to grant access, a token that has run out
    /// is renewed, and one that holds is used.
    pub fn authenticate_or_renew(&self, now: Timestamp) -> (step: AuthStep)
        ensures
            step == self.step_at(now),
    {
        match &self.token {
            None => AuthStep::Authenticate,
            Some(token) => if token.is_expired_at(now) {
                AuthStep::Renew
            } else {
                AuthStep::Ready
            },
        }
    }

    /// Takes the token that the remote side gave out at `now` after the
    /// user granted access, and hands back a copy to keep on disk.
    pub fn authenticate(&mut self, api_token: GoogleApiToken, now: Timestamp) -> (token:
        GoogleToken)
        ensures
            token == (GoogleToken { token: api_token, token_created_at: now }),
            final(self).token == Some(token),
            final(self).credentials == old(self).credentials,
    {
        let token = GoogleToken { token: api_token, token_created_at: now };
        self.token = Some(token.clone());
        token
    }

    /// The token after it was renewed at `now`: the access token and its
    /// span are those of the answer, the rest stays.
    pub open spec fn renewed(token: GoogleToken, answer: RefreshToken, now: Timestamp) -> GoogleToken {
        GoogleToken {
            token: GoogleApiToken {
                access_token: answer.access_token,
                expires_in: answer.expires_in,
                ..token.token
            },
            token_created_at: now,
        }
    }

    /// Takes what the remote side answered at `now` to the renewal of the
    /// token, and hands back a copy of the renewed token to keep on disk.
    pub fn renew_token(&mut self, answer: RefreshToken, now: Timestamp) -> (token: GoogleToken)
        requires
            old(self).token is Some,
        ensures
            token == Self::renewed(old(self).token->0, answer, now),
            final(self).token == Some(token),
            final(self).credentials == old(self).credentials,
    {
        let mut token = self.token.clone().unwrap();
        token.token.access_token = answer.access_token;
        token.token.expires_in = answer.expires_in;
        token.token_created_at = now;
        self.token = Some(token.clone());
        token
    }
}

/// What this program asks leave for: to read the photo library.
pub fn google_photos_api_read_only_scope() -> (scopes: Vec<String>)
    ensures
        scopes@.len() == 1,
        scopes@[0]@ == "https://www.googleapis.com/auth/photoslibrary.readonly"@,
{
    let mut scopes: Vec<String> = Vec::new();
    scopes.push("https://www.googleapis.com/auth/photoslibrary.readonly".to_owned());
    scopes
}

/// The address at which the user grants access, for given scopes.
pub open spec fn authorization_url(credentials: GoogleWebCredentials, scopes: Seq<char>) -> Seq<
    char,
> {
    credentials.auth_uri@ + "?scope="@ + scopes + "&response_type=code&redirect_uri="@
        + callback_url() + "&access_type=offline&client_id="@ + credentials.client_id@
}

/// The address at which the user grants this program leave to read the
/// photo library.
pub fn create_authorization_url(credentials: &GoogleWebCredentials) -> (url: String)
    ensures
        url@ == authorization_url(
            *credentials,
            "https://www.googleapis.com/auth/photoslibrary.readonly"@,
        ),
{
    let scope_list = google_photos_api_read_only_scope();
    let scopes = join(&scope_list, " ");
    let mut url = credentials.auth_uri.clone();
    url.append("?scope=");
    url.append(scopes.as_str());
    url.append("&response_type=code&redirect_uri=");
    url.append(callback_address());
    url.append("&access_type=offline&client_id=");
    url.append(credentials.client_id.as_str());
    url
}

/// The characters of the names and values of `pairs`.
pub open spec fn pairs_view(pairs: Seq<(String, String)>) -> Seq<(Seq<char>, Seq<char>)> {
    pairs.map_values(|p: (String, String)| (p.0@, p.1@))
}

/// What is sent to trade the code `code` for a token.
pub open spec fn auth_token_request(credentials: GoogleWebCredentials, code: Seq<char>) -> Seq<
    (Seq<char>, Seq<char>),
> {
    seq![
        ("code"@, code),
        ("client_id"@, credentials.client_id@),
        ("client_secret"@, credentials.client_secret@),
        ("redirect_uri"@, callback_url()),
        ("grant_type"@, "authorization_code"@),
    ]
}

/// What is sent to have the token `refresh_token` renewed.
pub open spec fn refresh_token_request(
    credentials: GoogleWebCredentials,
    refresh_token: Seq<char>,
) -> Seq<(Seq<char>, Seq<char>)> {
    seq![
        ("refresh_token"@, refresh_token),
        ("client_id"@, credentials.client_id@),
        ("client_secret"@, credentials.client_secret@),
        ("grant_type"@, "refresh_token"@),
    ]
}

/// What is sent to the remote side to trade `code` for a token: names and
/// values, each name once.
pub fn build_auth_token_request(
    credentials: &GoogleWebCredentials,
    code: &GoogleAuthorizationCode,
) -> (token_request: Vec<(String, String)>)
    ensures
        pairs_view(token_request@) == auth_token_request(*credentials, code.0@),
{
    let mut token_request: Vec<(String, String)> = Vec::new();
    token_request.push(("code".to_owned(), code.0.clone()));
    token_request.push(("client_id".to_owned(), credentials.client_id.clone()));
    token_request.push(("client_secret".to_owned(), credentials.client_secret.clone()));
    token_request.push(("redirect_uri".to_owned(), callback_address().to_owned()));
    token_request.push(("grant_type".to_owned(), "authorization_code".to_owned()));
    assert(pairs_view(token_request@) =~= auth_token_request(*credentials, code.0@));
    token_request
}

/// What is sent to the remote side to have `api_token` renewed: names and
/// values, each name once.
pub fn build_refresh_token_request(
    credentials: &GoogleWebCredentials,
    api_token: &GoogleApiToken,
) -> (refresh_request: Vec<(String, String)>)
    ensures
        pairs_view(refresh_request@) == refresh_token_request(*credentials, api_token.refresh_token@),
{
    let mut refresh_request: Vec<(String, String)> = Vec::new();
    refresh_request.push(("refresh_token".to_owned(), api_token.refresh_token.clone()));
    refresh_request.push(("client_id".to_owned(), credentials.client_id.clone()));
    refresh_request.push(("client_secret".to_owned(), credentials.client_secret.clone()));
    refresh_request.push(("grant_type".to_owned(), "refresh_token".to_owned()));
    assert(pairs_view(refresh_request@) =~= refresh_token_request(
        *credentials,
        api_token.refresh_token@,
    ));
    refresh_request
}

/// The names and values that the query of the address `url` holds, in
/// their order, as `Url::query_pairs` of the `url` crate reads them;
/// `None` where `Url::parse` takes `url` for no address.
pub uninterp spec fn url_query_pairs(url: Seq<char>) -> Option<Seq<(Seq<char>, Seq<char>)>>;

/// Has `Url::parse` of the `url` crate, as `nickel::hyper` hands it on, read
/// `url`, and `Url::query_pairs` read the query of what was parsed. Claimed:
/// the outcome is the one that `url_query_pairs` names for the characters of
/// `url`, each name and value copied as it was read.
#[verifier::external_body]
fn parse_url_query(url: &str) -> (pairs: Option<Vec<(String, String)>>)
    ensures
        match pairs {
            Some(read) => url_query_pairs(url@) == Some(pairs_view(read@)),
            None => url_query_pairs(url@) is None,
        },
{
    match nickel::hyper::Url::parse(url) {
        Ok(parsed) => {
            let mut pairs: Vec<(String, String)> = Vec::new();
            for (name, value) in parsed.query_pairs() {
                pairs.push((name.into_owned(), value.into_owned()));
            }
            Some(pairs)
        },
        Err(_) => None,
    }
}

/// The table of `pairs`: each name once, with the value that came last for
/// it, in the place where the name first came.
pub fn query_table(pairs: Vec<(String, String)>) -> (table: Vec<(String, String)>)
    ensures
        distinct_keys(table@),
        table@ == upsert_all(Seq::empty(), pairs@),
{
    let mut table: Vec<(String, String)> = Vec::new();
    let ghost all = pairs@;
    for pair in it: pairs
        invariant
            it.seq() == all,
            distinct_keys(table@),
            table@ == upsert_all(Seq::empty(), all.take(it.index() as int)),
    {
        proof {
            assert(all.take(it.index() + 1).drop_last() =~= all.take(it.index() as int));
        }
        let (name, value) = pair;
        put(&mut table, &name, value);
    }
    proof {
        assert(all.take(all.len() as int) =~= all);
    }
    table
}

/// The address that a request for `request_uri` on this machine went to.
pub open spec fn local_url(request_uri: Seq<char>) -> Seq<char> {
    "http://localhost"@ + request_uri
}

/// The names and values in the query of a request that came in for
/// `qstr`, as a table; `None` where `qstr` makes no address.
pub fn parse_query_str(qstr: &str) -> (query_params: Option<Vec<(String, String)>>)
    ensures
        match query_params {
            Some(table) => distinct_keys(table@) && exists|pairs: Seq<(String, String)>|
                url_query_pairs(local_url(qstr@)) == Some(#[trigger] pairs_view(pairs)) && table@
                    == upsert_all(Seq::empty(), pairs),
            None => url_query_pairs(local_url(qstr@)) is None,
        },
{
    let mut url = "http://localhost".to_owned();
    url.append(qstr);
    match parse_url_query(url.as_str()) {
        Some(pairs) => {
            let ghost read = pairs@;
            let table = query_table(pairs);
            assert(url_query_pairs(local_url(qstr@)) == Some(pairs_view(read)));
            Some(table)
        },
        None => None,
    }
}

/// The value filed under `code` in `query_params`, as the code that the
/// remote side hands over.
pub fn authorization_code(query_params: &Vec<(String, String)>) -> (code: Option<
    GoogleAuthorizationCode,
>)
    requires
        distinct_keys(query_params@),
    ensures
        match code {
            Some(found) => lookup(query_params@, "code"@) == Some(found.0),
            None => lookup(query_params@, "code"@) is None,
        },
{
    let name = "code".to_owned();
    match find(query_params, &name) {
        Some(i) => Some(GoogleAuthorizationCode(query_params[i].1.clone())),
        None => None,
    }
}

/// The code that the remote side hands over in the request for
/// `request_uri`, to which it sends the user back; `None` where the request
/// names none.
pub fn get_authorization_code(request_uri: &str) -> (code: Option<GoogleAuthorizationCode>)
    ensures
        match url_query_pairs(local_url(request_uri@)) {
            Some(read) => exists|pairs: Seq<(String, String)>|
                read == #[trigger] pairs_view(pairs) && match code {
                    Some(found) => lookup(upsert_all(Seq::empty(), pairs), "code"@) == Some(found.0),
                    None => lookup(upsert_all(Seq::empty(), pairs), "code"@) is None,
                },
            None => code is None,
        },
{
    match parse_query_str(request_uri) {
        Some(table) => authorization_code(&table),
        None => None,
    }
}

} // verus!

//! Gathering the records of the registries page by page, deriving the signing
//! key and assembling the token.

use crate::api::{
    GeneratorRequest, InventoryFetchRequest, InventoryFetchResponse, InventoryListRequest,
    InventoryListResponse, LicenseFetchResponse, LicensesListRequest, LicensesListResponse,
};
use crate::model::{claims_made, Claims};
use crate::runtime_error::RuntimeError;
use crate::signer::{sign_token, signed_token};
use vstd::prelude::*;
use vstd::utf8::encode_utf8;

verus! {

/// A page of a listing: its records, and the token that asks for the page
/// after it. A page without a token is the last one. What a loader has
/// gathered is a page too: all records so far, and the token of the page it
/// read last.
pub struct Page<T> {
    pub records: Seq<T>,
    pub page_token: Option<Seq<char>>,
}

/// A page token as plain text.
pub open spec fn token_text(page_token: Option<String>) -> Option<Seq<char>> {
    match page_token {
        Some(token) => Some(token@),
        None => None,
    }
}

/// What is gathered once the page `payload` has been read, or once a reply
/// came without a page.
pub open spec fn absorb<T>(gathered: Page<T>, payload: Option<Page<T>>) -> Page<T> {
    match payload {
        Some(page) => Page {
            records: gathered.records + page.records,
            page_token: page.page_token,
        },
        None => gathered,
    }
}

/// What a loader holds before the first reply.
pub open spec fn nothing_gathered<T>() -> Page<T> {
    Page { records: Seq::empty(), page_token: None }
}

/// What is gathered after `replies`, read in their order.
pub open spec fn gather<T>(replies: Seq<Option<Page<T>>>) -> Page<T>
    decreases replies.len(),
{
    if replies.len() == 0 {
        nothing_gathered()
    } else {
        absorb(gather(replies.drop_last()), replies.last())
    }
}

/// The records of `pages`, page after page.
pub open spec fn all_records<T>(pages: Seq<Page<T>>) -> Seq<T>
    decreases pages.len(),
{
    if pages.len() == 0 {
        Seq::empty()
    } else {
        all_records(pages.drop_last()) + pages.last().records
    }
}

/// Replies that each bring one of `pages`.
pub open spec fn replies_of<T>(pages: Seq<Page<T>>) -> Seq<Option<Page<T>>> {
    pages.map_values(|page: Page<T>| Some(page))
}

/// A loader that is fed pages holds the records of all of them, in their
/// order, and the token of the last: so it has finished exactly when the
/// page it read last brought no token, and what it returns then are the
/// records of every page.
pub proof fn lemma_gather_pages<T>(pages: Seq<Page<T>>)
    requires
        pages.len() > 0,
    ensures
        gather(replies_of(pages)).records == all_records(pages),
        gather(replies_of(pages)).page_token == pages.last().page_token,
    decreases pages.len(),
{
    let replies = replies_of(pages);
    assert(replies.drop_last() =~= replies_of(pages.drop_last()));
    if pages.len() > 1 {
        lemma_gather_pages(pages.drop_last());
    } else {
        assert(all_records(pages.drop_last()) =~= Seq::<T>::empty());
        assert(gather(replies.drop_last()).records + pages.last().records
            =~= pages.last().records);
    }
}

/// A reply without a page changes nothing of what is gathered.
pub proof fn lemma_gather_without_page<T>(replies: Seq<Option<Page<T>>>)
    ensures
        gather(replies.push(None)) == gather(replies),
{
    assert(replies.push(None).drop_last() =~= replies);
}

/// A loader that is fed pages of which page `last` is the first without a
/// token goes on after every page before it, and has finished after page
/// `last` with the records of the pages up to it: every record of every
/// page as often as the pages hold it, in the order of arrival, and nothing
/// else.
pub proof fn lemma_load_ends_at_first_page_without_token<T>(pages: Seq<Page<T>>, last: int)
    requires
        0 <= last < pages.len(),
        pages[last].page_token is None,
        forall|k: int| 0 <= k < last ==> (#[trigger] pages[k]).page_token is Some,
    ensures
        forall|k: int|
            0 <= k < last ==> (#[trigger] gather(replies_of(pages.take(k + 1)))).page_token
                is Some,
        gather(replies_of(pages.take(last + 1))).page_token is None,
        gather(replies_of(pages.take(last + 1))).records == all_records(pages.take(last + 1)),
{
    assert forall|k: int| 0 <= k <= last implies (#[trigger] gather(
        replies_of(pages.take(k + 1)),
    )).page_token == pages[k].page_token by {
        lemma_gather_pages(pages.take(k + 1));
        assert(pages.take(k + 1).last() == pages[k]);
    }
    lemma_gather_pages(pages.take(last + 1));
}

/// What a registry sent back.
pub enum Reply<P> {
    /// No payload.
    Absent,
    /// A payload without bytes. It is taken as a page without records and
    /// without a token, or as no record.
    Empty,
    /// The payload.
    Payload(P),
}

/// Tells a payload without bytes from one that is to be decoded.
pub fn sent_bytes<'a>(payload: Option<&'a [u8]>) -> (reply: Reply<&'a [u8]>)
    ensures
        reply == match payload {
            Some(bytes) => if bytes@.len() > 0 {
                Reply::Payload(bytes)
            } else {
                Reply::Empty
            },
            None => Reply::Absent,
        },
{
    match payload {
        Some(bytes) => if bytes.len() > 0 {
            Reply::Payload(bytes)
        } else {
            Reply::Empty
        },
        None => Reply::Absent,
    }
}

impl View for InventoryListResponse {
    type V = Page<InventoryFetchResponse>;

    open spec fn view(&self) -> Page<InventoryFetchResponse> {
        Page { records: self.inventory@, page_token: token_text(self.page_token) }
    }
}

impl View for LicensesListResponse {
    type V = Page<LicenseFetchResponse>;

    open spec fn view(&self) -> Page<LicenseFetchResponse> {
        Page { records: self.licenses@, page_token: token_text(self.page_token) }
    }
}

/// The listing of a vessel's inventory while it is gathered: the request to
/// send next, and the records that the pages so far brought.
pub struct InventoryListing {
    pub request: InventoryListRequest,
    pub inventory: Vec<InventoryFetchResponse>,
}

impl View for InventoryListing {
    type V = Page<InventoryFetchResponse>;

    open spec fn view(&self) -> Page<InventoryFetchResponse> {
        Page { records: self.inventory@, page_token: token_text(self.request.page_token) }
    }
}

/// The listing of a vessel's licenses while it is gathered: the request to
/// send next, and the records that the pages so far brought.
pub struct LicensesListing {
    pub request: LicensesListRequest,
    pub licenses: Vec<LicenseFetchResponse>,
}

impl View for LicensesListing {
    type V = Page<LicenseFetchResponse>;

    open spec fn view(&self) -> Page<LicenseFetchResponse> {
        Page { records: self.licenses@, page_token: token_text(self.request.page_token) }
    }
}

/// What a loader does after a reply.
pub enum Step<L, T> {
    /// The request of the listing is to be sent, and its reply handed back.
    Continue(L),
    /// Every page was read: these are the records.
    Finished(Vec<T>),
}

impl InventoryListing {
    /// The listing before its first request, which asks for the first page.
    pub fn new(customer_id: &u128, vessel_id: &u128) -> (listing: Self)
        ensures
            listing.request.customer_id == *customer_id,
            listing.request.vessel_id == *vessel_id,
            listing@ == nothing_gathered::<InventoryFetchResponse>(),
    {
        Self {
            request: InventoryListRequest {
                customer_id: *customer_id,
                vessel_id: *vessel_id,
                page_token: None,
            },
            inventory: Vec::new(),
        }
    }
}

impl LicensesListing {
    /// The listing before its first request, which asks for the first page.
    pub fn new(customer_id: &u128, vessel_id: &u128) -> (listing: Self)
        ensures
            listing.request.customer_id == *customer_id,
            listing.request.vessel_id == *vessel_id,
            listing@ == nothing_gathered::<LicenseFetchResponse>(),
    {
        Self {
            request: LicensesListRequest {
                customer_id: *customer_id,
                vessel_id: *vessel_id,
                page_token: None,
            },
            licenses: Vec::new(),
        }
    }
}

/// The page that a reply brought, if it brought one.
pub open spec fn inventory_page(reply: Reply<InventoryListResponse>) -> Option<
    Page<InventoryFetchResponse>,
> {
    match reply {
        Reply::Payload(response) => Some(response@),
        Reply::Empty => Some(nothing_gathered()),
        Reply::Absent => None,
    }
}

/// The page that a reply brought, if it brought one.
pub open spec fn licenses_page(reply: Reply<LicensesListResponse>) -> Option<
    Page<LicenseFetchResponse>,
> {
    match reply {
        Reply::Payload(response) => Some(response@),
        Reply::Empty => Some(nothing_gathered()),
        Reply::Absent => None,
    }
}

/// Takes the reply to the request of `listing`. A failed reply fails the
/// load. A page adds its records and sets the token of the next request; a
/// payload without bytes is a page without records and without a token; a
/// reply without payload changes nothing. The load has finished when the
/// request then holds no token, and else goes on with that request.
pub fn load_inventory(
    listing: InventoryListing,
    reply: Result<Reply<InventoryListResponse>, RuntimeError>,
) -> (step: Result<Step<InventoryListing, InventoryFetchResponse>, RuntimeError>)
    ensures
        match reply {
            Err(error) => step == Err::<Step<InventoryListing, InventoryFetchResponse>, _>(error),
            Ok(payload) => {
                let gathered = absorb(listing@, inventory_page(payload));
                match step {
                    Ok(Step::Continue(next)) => {
                        &&& gathered.page_token is Some
                        &&& next@ == gathered
                        &&& next.request.customer_id == listing.request.customer_id
                        &&& next.request.vessel_id == listing.request.vessel_id
                    },
                    Ok(Step::Finished(inventory)) => {
                        &&& gathered.page_token is None
                        &&& inventory@ == gathered.records
                    },
                    Err(_) => false,
                }
            },
        },
{
    let mut listing = listing;
    match reply {
        Err(error) => {
            return Err(error);
        },
        Ok(Reply::Payload(response)) => {
            let mut inventory = response.inventory;
            listing.request.page_token = response.page_token;
            listing.inventory.append(&mut inventory);
        },
        Ok(Reply::Empty) => {
            listing.request.page_token = None;
        },
        Ok(Reply::Absent) => {},
    }
    if listing.request.page_token.is_none() {
        Ok(Step::Finished(listing.inventory))
    } else {
        Ok(Step::Continue(listing))
    }
}

/// Takes the reply to the request of `listing`. A failed reply fails the
/// load. A page adds its records and sets the token of the next request; a
/// payload without bytes is a page without records and without a token; a
/// reply without payload changes nothing. The load has finished when the
/// request then holds no token, and else goes on with that request.
pub fn load_licenses(
    listing: LicensesListing,
    reply: Result<Reply<LicensesListResponse>, RuntimeError>,
) -> (step: Result<Step<LicensesListing, LicenseFetchResponse>, RuntimeError>)
    ensures
        match reply {
            Err(error) => step == Err::<Step<LicensesListing, LicenseFetchResponse>, _>(error),
            Ok(payload) => {
                let gathered = absorb(listing@, licenses_page(payload));
                match step {
                    Ok(Step::Continue(next)) => {
                        &&& gathered.page_token is Some
                        &&& next@ == gathered
                        &&& next.request.customer_id == listing.request.customer_id
                        &&& next.request.vessel_id == listing.request.vessel_id
                    },
                    Ok(Step::Finished(licenses)) => {
                        &&& gathered.page_token is None
                        &&& licenses@ == gathered.records
                    },
                    Err(_) => false,
                }
            },
        },
{
    let mut listing = listing;
    match reply {
        Err(error) => {
            return Err(error);
        },
        Ok(Reply::Payload(response)) => {
            let mut licenses = response.licenses;
            listing.request.page_token = response.page_token;
            listing.licenses.append(&mut licenses);
        },
        Ok(Reply::Empty) => {
            listing.request.page_token = None;
        },
        Ok(Reply::Absent) => {},
    }
    if listing.request.page_token.is_none() {
        Ok(Step::Finished(listing.licenses))
    } else {
        Ok(Step::Continue(listing))
    }
}

/// The type of the inventory records that hold a signing secret.
pub open spec fn key_inventory_type() -> Seq<char> {
    "jwt_key"@
}

/// The request that fetches the inventory record that `request` names as
/// the holder of the signing secret. A request that names none has no key.
pub fn key_request(request: &GeneratorRequest) -> (fetch: Result<InventoryFetchRequest, RuntimeError>)
    ensures
        match request.inventory_key {
            Some(inventory_key) => {
                &&& fetch matches Ok(made)
                &&& made.customer_id == request.customer_id
                &&& made.vessel_id == request.vessel_id
                &&& made.inventory_type@ == key_inventory_type()
                &&& made.inventory_id == inventory_key
            },
            None => fetch == Err::<InventoryFetchRequest, _>(RuntimeError::MissingKey),
        },
{
    match &request.inventory_key {
        Some(inventory_key) => Ok(
            InventoryFetchRequest {
                customer_id: request.customer_id,
                vessel_id: request.vessel_id,
                inventory_type: "jwt_key".to_owned(),
                inventory_id: inventory_key.clone(),
            },
        ),
        None => Err(RuntimeError::MissingKey),
    }
}

/// The signing key that the reply to a fetch of one inventory record gives.
pub open spec fn fetched_key(reply: Result<Reply<InventoryFetchResponse>, RuntimeError>) -> Result<
    String,
    RuntimeError,
> {
    match reply {
        Ok(Reply::Payload(record)) => match record.serial_number {
            Some(serial_number) => Ok(serial_number),
            None => Err(RuntimeError::MissingKey),
        },
        Ok(_) => Err(RuntimeError::MissingKey),
        Err(error) => Err(error),
    }
}

/// Takes the reply to the fetch of the inventory record that holds the
/// signing secret: the key is the serial number of the record as it stands.
/// A reply without a record, or a record without a serial number, is a
/// missing key.
pub fn load_key(reply: Result<Reply<InventoryFetchResponse>, RuntimeError>) -> (key: Result<String, RuntimeError>)
    ensures
        key == fetched_key(reply),
{
    match reply {
        Ok(Reply::Payload(record)) => match record.serial_number {
            Some(serial_number) => Ok(serial_number),
            None => Err(RuntimeError::MissingKey),
        },
        Ok(_) => Err(RuntimeError::MissingKey),
        Err(error) => Err(error),
    }
}

/// The key that stands in until it is settled which parts of an inventory
/// make a key.
pub open spec fn inventory_key() -> Seq<char> {
    "<TODO>"@
}

/// The signing key of a whole inventory.
fn generate_key(inventory: Vec<InventoryFetchResponse>) -> (key: String)
    ensures
        key@ == inventory_key(),
{
    "<TODO>".to_owned()
}

/// A token that awaits its signature: the claims, and the key to sign them
/// with.
pub struct UnsignedToken {
    pub key: String,
    pub claims: Claims,
}

impl UnsignedToken {
    /// The claims of `request` and `licenses`, to be signed with `key`. The
    /// clock is read for the claims.
    pub fn new(request: GeneratorRequest, key: String, licenses: Vec<LicenseFetchResponse>) -> (token: Self)
        ensures
            token.key == key,
            claims_made(
                token.claims@,
                licenses@,
                request.customer_id,
                request.vessel_id,
                request.issuer@,
                request.audience@,
            ),
    {
        let claims = Claims::from_input(
            licenses,
            &request.customer_id,
            &request.vessel_id,
            request.issuer,
            request.audience,
        );
        Self { key, claims }
    }

    /// The signed token, where `claims` is the claims segment: the claims of
    /// this token as JSON, in the URL-safe base64 alphabet without padding.
    /// Claims that could not be encoded fail the signing; nothing else does.
    pub fn sign(&self, claims: Result<String, jwt::Error>) -> (token: Result<String, RuntimeError>)
        ensures
            match claims {
                Ok(segment) => token matches Ok(text) && text@ == signed_token(
                    encode_utf8(self.key@),
                    segment@,
                ),
                Err(error) => token == Err::<String, _>(RuntimeError::JwtError(error)),
            },
    {
        sign_token(self.key.as_str(), claims)
    }
}

/// How the signing key is derived: from the one record that the named
/// function fetches, or from the whole inventory that the named function
/// lists.
pub enum KeyStrategy {
    Direct(String),
    Aggregate(String),
}

/// The strategy that the configuration selects, where each argument is the
/// name that is configured for a function of the inventory registry, or
/// why none could be read. A function that fetches one record is taken
/// before one that lists; with neither the configuration is at fault.
pub fn key_strategy(
    inventory_fetcher: Result<String, String>,
    inventory_lister: Result<String, String>,
) -> (strategy: Result<KeyStrategy, RuntimeError>)
    ensures
        strategy == match (inventory_fetcher, inventory_lister) {
            (Ok(lambda), _) => Ok::<_, RuntimeError>(KeyStrategy::Direct(lambda)),
            (Err(_), Ok(lambda)) => Ok(KeyStrategy::Aggregate(lambda)),
            (Err(missing), Err(_)) => Err(RuntimeError::ClientConfigLoadingError(missing)),
        },
{
    match inventory_fetcher {
        Ok(lambda) => Ok(KeyStrategy::Direct(lambda)),
        Err(missing) => match inventory_lister {
            Ok(lambda) => Ok(KeyStrategy::Aggregate(lambda)),
            Err(_) => Err(RuntimeError::ClientConfigLoadingError(missing)),
        },
    }
}

/// What the load of the inventory brought: the key that the fetched record
/// holds, or the whole listing.
pub enum Inventory {
    Key(String),
    Listing(Vec<InventoryFetchResponse>),
}

/// The key that tokens of a vessel with this inventory are signed with.
pub open spec fn signing_key(inventory: Inventory) -> Seq<char> {
    match inventory {
        Inventory::Key(key) => key@,
        Inventory::Listing(_) => inventory_key(),
    }
}

/// The token of a vessel whose signing key is made of its whole inventory.
pub fn assemble_token(
    request: GeneratorRequest,
    inventory: Vec<InventoryFetchResponse>,
    licenses: Vec<LicenseFetchResponse>,
) -> (token: UnsignedToken)
    ensures
        token.key@ == inventory_key(),
        claims_made(
            token.claims@,
            licenses@,
            request.customer_id,
            request.vessel_id,
            request.issuer@,
            request.audience@,
        ),
{
    let key = generate_key(inventory);
    UnsignedToken::new(request, key, licenses)
}

} // verus!

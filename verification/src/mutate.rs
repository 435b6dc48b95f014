//! Creating and updating records: the suggested default name, the
//! fully-qualified name composition, and the validate-then-submit request
//! builders.

use vstd::prelude::*;

use crate::content::{
    build_content,
    is_ipv4_text,
    octets_of_text,
    ContentError,
    ContentVariant,
    ContentView,
    Ipv4Octets,
    RecordKind,
};
use crate::errors::Error;
use crate::zones::ZoneInfo;

verus! {

/// `s` is one of the words the default record name is drawn from.
pub open spec fn is_suggestion_word(s: Seq<char>) -> bool {
    ||| s == "core"@
    ||| s == "star"@
    ||| s == "gear"@
    ||| s == "pour"@
    ||| s == "rich"@
    ||| s == "food"@
    ||| s == "bond"@
}

/// Relies on rand::Rng::gen_range over `0..n`: the sample lies in the
/// given half-open range, which must be non-empty (it panics otherwise).
#[verifier::external_body]
fn random_below(n: usize) -> (r: usize)
    requires
        n > 0,
    ensures
        r < n,
{
    rand::Rng::gen_range(&mut rand::thread_rng(), 0..n)
}

/// Draw the default record name: one token, uniformly at random, from a
/// small fixed word list.
pub fn suggest_record_name() -> (r: String)
    ensures
        is_suggestion_word(r@),
{
    let i = random_below(7);
    if i == 0 {
        String::from_str("core")
    } else if i == 1 {
        String::from_str("star")
    } else if i == 2 {
        String::from_str("gear")
    } else if i == 3 {
        String::from_str("pour")
    } else if i == 4 {
        String::from_str("rich")
    } else if i == 5 {
        String::from_str("food")
    } else {
        String::from_str("bond")
    }
}

/// The record type options presented for selection, in presentation order.
pub fn record_type_options() -> (r: Vec<String>)
    ensures
        r@.len() == 2,
        r@[0]@ == "A"@,
        r@[1]@ == "CNAME"@,
{
    let mut r: Vec<String> = Vec::new();
    r.push(String::from_str("A"));
    r.push(String::from_str("CNAME"));
    r
}

/// The record kind at the selected place in the type options, if any.
pub fn kind_of_selection(selected: usize) -> (r: Option<RecordKind>)
    ensures
        selected == 0 ==> r == Some(RecordKind::A),
        selected == 1 ==> r == Some(RecordKind::Cname),
        selected >= 2 ==> r is None,
{
    if selected == 0 {
        Some(RecordKind::A)
    } else if selected == 1 {
        Some(RecordKind::Cname)
    } else {
        None
    }
}

/// The fully-qualified record name: the entered name, a dot, the zone name.
pub fn compose_record_fqn(entered: &str, zone_name: &str) -> (r: String)
    ensures
        r@ == entered@ + "."@ + zone_name@,
{
    let r = String::from_str(entered).concat(".").concat(zone_name);
    proof {
        assert(r@ =~= entered@ + "."@ + zone_name@);
    }
    r
}

/// A create request as handed to the provider.
pub struct CreateRequest {
    pub zone_identifier: String,
    pub name: String,
    pub content: ContentVariant,
    pub proxied: bool,
    pub ttl: Option<u32>,
    pub priority: Option<u16>,
}

/// An update request as handed to the provider: mutate one record, by
/// identifier, to the given content.
pub struct UpdateRequest {
    pub zone_identifier: String,
    pub record_identifier: String,
    pub content: ContentVariant,
}

/// Validate the entered content and compose the create request.
///
/// On valid content the request carries the fully-qualified name
/// `<entered>.<zone name>`, the validated content, proxying enabled, and
/// no explicit TTL or priority. Invalid content yields exactly the
/// matching validation error and no request.
pub fn build_create_request(zone: &ZoneInfo, entered: &str, kind: RecordKind, raw: &str) -> (r:
    Result<CreateRequest, Error>)
    ensures
        kind == RecordKind::A ==> (r is Ok <==> is_ipv4_text(raw@)),
        kind == RecordKind::Cname ==> (r is Ok <==> raw@.len() > 0),
        r matches Ok(req) ==> {
            &&& req.zone_identifier@ == zone.zone_identifier@
            &&& req.name@ == entered@ + "."@ + zone.zone_name@
            &&& req.proxied == true
            &&& req.ttl is None
            &&& req.priority is None
            &&& (kind == RecordKind::A ==> exists|o: Ipv4Octets|
                req.content@ == (ContentView::Address { octets: o }) && octets_of_text(raw@, o))
            &&& (kind == RecordKind::Cname ==> req.content@ == (ContentView::CanonicalName {
                target: raw@,
            }))
        },
        kind == RecordKind::A && r is Err ==> r == Result::<CreateRequest, Error>::Err(
            Error::Validation(ContentError::InvalidAddress),
        ),
        kind == RecordKind::Cname && r is Err ==> r == Result::<CreateRequest, Error>::Err(
            Error::Validation(ContentError::InvalidTarget),
        ),
{
    let content = match build_content(kind, raw) {
        Ok(content) => content,
        Err(e) => {
            return Err(Error::Validation(e));
        },
    };
    let name = compose_record_fqn(entered, zone.zone_name.as_str());
    Ok(
        CreateRequest {
            zone_identifier: zone.zone_identifier.clone(),
            name,
            content,
            proxied: true,
            ttl: None,
            priority: None,
        },
    )
}

/// Validate the entered content and compose the update request, under the
/// same content contract as create.
pub fn build_update_request(
    zone: &ZoneInfo,
    record_identifier: &str,
    kind: RecordKind,
    raw: &str,
) -> (r: Result<UpdateRequest, Error>)
    ensures
        kind == RecordKind::A ==> (r is Ok <==> is_ipv4_text(raw@)),
        kind == RecordKind::Cname ==> (r is Ok <==> raw@.len() > 0),
        r matches Ok(req) ==> {
            &&& req.zone_identifier@ == zone.zone_identifier@
            &&& req.record_identifier@ == record_identifier@
            &&& (kind == RecordKind::A ==> exists|o: Ipv4Octets|
                req.content@ == (ContentView::Address { octets: o }) && octets_of_text(raw@, o))
            &&& (kind == RecordKind::Cname ==> req.content@ == (ContentView::CanonicalName {
                target: raw@,
            }))
        },
        kind == RecordKind::A && r is Err ==> r == Result::<UpdateRequest, Error>::Err(
            Error::Validation(ContentError::InvalidAddress),
        ),
        kind == RecordKind::Cname && r is Err ==> r == Result::<UpdateRequest, Error>::Err(
            Error::Validation(ContentError::InvalidTarget),
        ),
{
    let content = match build_content(kind, raw) {
        Ok(content) => content,
        Err(e) => {
            return Err(Error::Validation(e));
        },
    };
    Ok(
        UpdateRequest {
            zone_identifier: zone.zone_identifier.clone(),
            record_identifier: String::from_str(record_identifier),
            content,
        },
    )
}

} // verus!

//! The event sink's planning half: per captured call, the stream name,
//! event type, fresh event identifier and serialized payload of the
//! append it is owed. Issuing the appends — the network half — belongs to
//! the host around this library, which runs the plan on a detached task.
use crate::call::{CallV, MutationCall};
use crate::render::spec_payload;
use vstd::prelude::*;

verus! {

/// Configuration of the event-store connection and naming: where to
/// connect, the prefix of each per-field stream name, and the prefix of
/// each event type.
#[derive(Debug, PartialEq)]
pub struct KurrentConfig {
    pub connection_string: String,
    pub stream_prefix: String,
    pub event_type_prefix: String,
}

/// The connection string used when none is configured.
pub fn default_connection_string() -> (r: String)
    ensures
        r@ == "kurrentdb://kurrentdb:2113?tls=false&tlsVerifyCert=false"@,
{
    String::from_str("kurrentdb://kurrentdb:2113?tls=false&tlsVerifyCert=false")
}

/// The stream-name prefix used when none is configured.
pub fn default_stream_prefix() -> (r: String)
    ensures
        r@ == "graphql-mutation-"@,
{
    String::from_str("graphql-mutation-")
}

/// The event-type prefix used when none is configured.
pub fn default_event_type_prefix() -> (r: String)
    ensures
        r@ == "GraphQL"@,
{
    String::from_str("GraphQL")
}

/// A consumer of captured call batches. The host implements it over the
/// event-store client; tests implement it over a recording stub.
pub trait MutationSink {
    fn persist_mutations(&self, calls: Vec<MutationCall>);
}

/// One planned append: the stream to append to, the event's type, its
/// fresh identifier, and the serialized payload.
#[derive(Debug, PartialEq)]
pub struct PlannedEvent {
    pub stream_name: String,
    pub event_type: String,
    pub event_id: String,
    pub payload: String,
}

/// The stream a call's event is appended to: the configured prefix, then
/// the call's field name. Calls with one field name share one stream.
pub open spec fn stream_name_of(stream_prefix: Seq<char>, c: CallV) -> Seq<char> {
    stream_prefix + c.field_name
}

/// A call's event type: the configured prefix, a dot, then the operation
/// name, or the field name for an anonymous operation.
pub open spec fn event_type_of(event_type_prefix: Seq<char>, c: CallV) -> Seq<char> {
    event_type_prefix + seq!['.'] + (match c.operation_name {
        Option::Some(n) => n,
        Option::None => c.field_name,
    })
}

/// Relies on `uuid::Uuid::new_v4` and its `Display` form: a fresh random
/// identifier, rendered as the 36-character hyphenated form. Randomness
/// means nothing further holds of the value; duplicate submission of a
/// batch yields new identifiers.
#[verifier::external_body]
fn fresh_event_id() -> (r: String)
    ensures
        r@.len() == 36,
{
    uuid::Uuid::new_v4().to_string()
}

/// Concatenates two pieces of text.
fn concat_text(a: &str, b: &str) -> (r: String)
    ensures
        r@ == a@ + b@,
{
    let mut out: Vec<char> = crate::chars::chars_of(a);
    crate::chars::append_str(&mut out, b);
    crate::chars::string_from_chars(out)
}

/// Plans one append per call, in batch order: stream name and event type
/// derived from the call, a fresh 36-character event identifier, and the
/// call serialized as the payload.
#[verifier::loop_isolation(false)]
pub fn plan_batch(
    calls: &Vec<MutationCall>,
    stream_prefix: &str,
    event_type_prefix: &str,
) -> (r: Vec<PlannedEvent>)
    ensures
        r@.len() == calls@.len(),
        forall|i: int|
            0 <= i < r@.len() ==> (#[trigger] r@[i]).stream_name@ == stream_name_of(
                stream_prefix@,
                calls.deep_view()[i],
            ),
        forall|i: int|
            0 <= i < r@.len() ==> (#[trigger] r@[i]).event_type@ == event_type_of(
                event_type_prefix@,
                calls.deep_view()[i],
            ),
        forall|i: int|
            0 <= i < r@.len() ==> (#[trigger] r@[i]).payload@ == spec_payload(
                calls.deep_view()[i],
            ),
        forall|i: int| 0 <= i < r@.len() ==> (#[trigger] r@[i]).event_id@.len() == 36,
{
    let mut out: Vec<PlannedEvent> = Vec::new();
    let mut j: usize = 0;
    while j < calls.len()
        invariant
            j <= calls@.len(),
            out@.len() == j as int,
            forall|i: int|
                0 <= i < j as int ==> (#[trigger] out@[i]).stream_name@ == stream_name_of(
                    stream_prefix@,
                    calls.deep_view()[i],
                ),
            forall|i: int|
                0 <= i < j as int ==> (#[trigger] out@[i]).event_type@ == event_type_of(
                    event_type_prefix@,
                    calls.deep_view()[i],
                ),
            forall|i: int|
                0 <= i < j as int ==> (#[trigger] out@[i]).payload@ == spec_payload(
                    calls.deep_view()[i],
                ),
            forall|i: int| 0 <= i < j as int ==> (#[trigger] out@[i]).event_id@.len() == 36,
        decreases calls@.len() - j,
    {
        let call = &calls[j];
        let stream_name = concat_text(stream_prefix, call.field_name.as_str());
        let type_base = concat_text(event_type_prefix, ".");
        let event_type = match &call.operation_name {
            Option::Some(n) => concat_text(type_base.as_str(), n.as_str()),
            Option::None => concat_text(type_base.as_str(), call.field_name.as_str()),
        };
        let event_id = fresh_event_id();
        let payload = crate::render::mutation_call_payload(call);
        proof {
            assert(calls.deep_view()[j as int] == calls@[j as int].deep_view());
            assert(event_type_prefix@ + "."@ =~= event_type_prefix@ + seq!['.']) by {
                reveal_strlit(".");
            }
            assert(event_type@ == event_type_of(
                event_type_prefix@,
                calls.deep_view()[j as int],
            ));
        }
        out.push(PlannedEvent { stream_name, event_type, event_id, payload });
        j = j + 1;
    }
    out
}

} // verus!

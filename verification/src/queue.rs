//! Work-queue messages: the payloads of the start, stop and fail queues,
//! and their exact wire codec. The queue transport delivers at least once
//! and in any order; these codecs pin down what a delivered body means.

use vstd::prelude::*;

use crate::model::{lemma_status_name_len, lemma_status_parse_name, IndexerStatus};
use crate::textfmt::{
    dec_str, lemma_dec_str_digits, lemma_uuid_str_shape, parse_u32, parse_uuid, u32_to_string,
    uuid_str, uuid_text,
};

verus! {

/// Payload of the start queue: which indexer to start, and which attempt
/// this is within the current retry budget.
#[derive(Clone, Copy, Debug, PartialEq, Eq, Structural)]
pub struct StartIndexerRequest {
    pub id: u128,
    pub attempt_no: u32,
}

/// Payload of the stop queue: which indexer to reconcile, and to which
/// stopped state.
#[derive(Clone, Copy, Debug, PartialEq, Eq, Structural)]
pub struct StopIndexerRequest {
    pub id: u128,
    pub status: IndexerStatus,
}

/// The wire text of a start message.
pub open spec fn start_request_text(q: StartIndexerRequest) -> Seq<char> {
    "{\"id\":\""@ + uuid_str(q.id) + "\",\"attempt_no\":"@ + dec_str(q.attempt_no as nat) + "}"@
}

/// The wire text of a stop message.
pub open spec fn stop_request_text(q: StopIndexerRequest) -> Seq<char> {
    "{\"id\":\""@ + uuid_str(q.id) + "\",\"status\":\""@ + q.status.name_spec() + "\"}"@
}

/// The wire text of a fail message: the bare id.
pub open spec fn fail_request_text(id: u128) -> Seq<char> {
    uuid_str(id)
}

/// Encode a start message.
pub fn encode_start_request(q: &StartIndexerRequest) -> (s: String)
    ensures
        s@ == start_request_text(*q),
{
    let mut s = String::from_str("{\"id\":\"");
    let id_text = uuid_text(q.id);
    s.append(id_text.as_str());
    s.append("\",\"attempt_no\":");
    let attempt_text = u32_to_string(q.attempt_no);
    s.append(attempt_text.as_str());
    s.append("}");
    proof {
        assert(s@ =~= start_request_text(*q));
    }
    s
}

/// Encode a stop message.
pub fn encode_stop_request(q: &StopIndexerRequest) -> (s: String)
    ensures
        s@ == stop_request_text(*q),
{
    let mut s = String::from_str("{\"id\":\"");
    let id_text = uuid_text(q.id);
    s.append(id_text.as_str());
    s.append("\",\"status\":\"");
    s.append(q.status.name());
    s.append("\"}");
    proof {
        assert(s@ =~= stop_request_text(*q));
    }
    s
}

/// Encode a fail message.
pub fn encode_fail_request(id: u128) -> (s: String)
    ensures
        s@ == fail_request_text(id),
{
    uuid_text(id)
}

/// Shape of the start-message text: its pieces at their fixed positions.
proof fn lemma_start_text_shape(q: StartIndexerRequest)
    ensures
        start_request_text(q).len() == 60 + dec_str(q.attempt_no as nat).len() - 1,
        start_request_text(q).len() >= 60,
        start_request_text(q).subrange(0, 7) == "{\"id\":\""@,
        start_request_text(q).subrange(7, 43) == uuid_str(q.id),
        start_request_text(q).subrange(43, 58) == "\",\"attempt_no\":"@,
        start_request_text(q).subrange(58, start_request_text(q).len() - 1) == dec_str(
            q.attempt_no as nat,
        ),
        start_request_text(q).last() == '}',
{
    reveal_strlit("{\"id\":\"");
    reveal_strlit("\",\"attempt_no\":");
    reveal_strlit("}");
    lemma_uuid_str_shape(q.id);
    lemma_dec_str_digits(q.attempt_no as nat);
    let t = start_request_text(q);
    assert(t.subrange(0, 7) =~= "{\"id\":\""@);
    assert(t.subrange(7, 43) =~= uuid_str(q.id));
    assert(t.subrange(43, 58) =~= "\",\"attempt_no\":"@);
    assert(t.subrange(58, t.len() - 1) =~= dec_str(q.attempt_no as nat));
}

/// Shape of the stop-message text: its pieces at their fixed positions.
proof fn lemma_stop_text_shape(q: StopIndexerRequest)
    ensures
        stop_request_text(q).len() == 57 + q.status.name_spec().len(),
        64 <= stop_request_text(q).len() <= 71,
        stop_request_text(q).subrange(0, 7) == "{\"id\":\""@,
        stop_request_text(q).subrange(7, 43) == uuid_str(q.id),
        stop_request_text(q).subrange(43, 55) == "\",\"status\":\""@,
        stop_request_text(q).subrange(55, stop_request_text(q).len() - 2)
            == q.status.name_spec(),
        stop_request_text(q)[stop_request_text(q).len() - 2] == '"',
        stop_request_text(q).last() == '}',
{
    reveal_strlit("{\"id\":\"");
    reveal_strlit("\",\"status\":\"");
    reveal_strlit("\"}");
    lemma_uuid_str_shape(q.id);
    lemma_status_name_len(q.status);
    let t = stop_request_text(q);
    assert(t.subrange(0, 7) =~= "{\"id\":\""@);
    assert(t.subrange(7, 43) =~= uuid_str(q.id));
    assert(t.subrange(43, 55) =~= "\",\"status\":\""@);
    assert(t.subrange(55, t.len() - 2) =~= q.status.name_spec());
}

/// Parse a start message. Accepts exactly what `encode_start_request`
/// produces.
pub fn parse_start_request(s: &str) -> (r: Option<StartIndexerRequest>)
    ensures
        r is Some ==> s@ == start_request_text(r.unwrap()),
        forall|q: StartIndexerRequest| s@ == start_request_text(q) ==> r == Some(q),
{
    let len = s.unicode_len();
    if len < 60 {
        proof {
            assert forall|q: StartIndexerRequest| s@ == start_request_text(q) implies false by {
                lemma_start_text_shape(q);
            }
        }
        return None;
    }
    let prefix = s.substring_char(0, 7);
    let prefix_owned = prefix.to_owned();
    if !(prefix_owned == String::from_str("{\"id\":\"")) {
        proof {
            assert forall|q: StartIndexerRequest| s@ == start_request_text(q) implies false by {
                lemma_start_text_shape(q);
            }
        }
        return None;
    }
    let mid = s.substring_char(43, 58);
    let mid_owned = mid.to_owned();
    if !(mid_owned == String::from_str("\",\"attempt_no\":")) {
        proof {
            assert forall|q: StartIndexerRequest| s@ == start_request_text(q) implies false by {
                lemma_start_text_shape(q);
            }
        }
        return None;
    }
    if s.get_char(len - 1) != '}' {
        proof {
            assert forall|q: StartIndexerRequest| s@ == start_request_text(q) implies false by {
                lemma_start_text_shape(q);
            }
        }
        return None;
    }
    let id = match parse_uuid(s.substring_char(7, 43)) {
        Some(id) => id,
        None => {
            proof {
                assert forall|q: StartIndexerRequest| s@ == start_request_text(q) implies false by {
                    lemma_start_text_shape(q);
                }
            }
            return None;
        },
    };
    let attempt_no = match parse_u32(s.substring_char(58, len - 1)) {
        Some(n) => n,
        None => {
            proof {
                assert forall|q: StartIndexerRequest| s@ == start_request_text(q) implies false by {
                    lemma_start_text_shape(q);
                }
            }
            return None;
        },
    };
    let parsed = StartIndexerRequest { id, attempt_no };
    proof {
        reveal_strlit("{\"id\":\"");
        reveal_strlit("\",\"attempt_no\":");
        reveal_strlit("}");
        assert(s@ =~= start_request_text(parsed));
        assert forall|q: StartIndexerRequest| s@ == start_request_text(q) implies Some(parsed)
            == Some(q) by {
            lemma_start_text_shape(q);
        }
    }
    Some(parsed)
}

/// Parse a stop message. Accepts exactly what `encode_stop_request`
/// produces.
pub fn parse_stop_request(s: &str) -> (r: Option<StopIndexerRequest>)
    ensures
        r is Some ==> s@ == stop_request_text(r.unwrap()),
        forall|q: StopIndexerRequest| s@ == stop_request_text(q) ==> r == Some(q),
{
    let len = s.unicode_len();
    if len < 64 {
        proof {
            assert forall|q: StopIndexerRequest| s@ == stop_request_text(q) implies false by {
                lemma_stop_text_shape(q);
            }
        }
        return None;
    }
    let prefix = s.substring_char(0, 7);
    let prefix_owned = prefix.to_owned();
    if !(prefix_owned == String::from_str("{\"id\":\"")) {
        proof {
            assert forall|q: StopIndexerRequest| s@ == stop_request_text(q) implies false by {
                lemma_stop_text_shape(q);
            }
        }
        return None;
    }
    let mid = s.substring_char(43, 55);
    let mid_owned = mid.to_owned();
    if !(mid_owned == String::from_str("\",\"status\":\"")) {
        proof {
            assert forall|q: StopIndexerRequest| s@ == stop_request_text(q) implies false by {
                lemma_stop_text_shape(q);
            }
        }
        return None;
    }
    if s.get_char(len - 2) != '"' || s.get_char(len - 1) != '}' {
        proof {
            assert forall|q: StopIndexerRequest| s@ == stop_request_text(q) implies false by {
                lemma_stop_text_shape(q);
            }
        }
        return None;
    }
    let id = match parse_uuid(s.substring_char(7, 43)) {
        Some(id) => id,
        None => {
            proof {
                assert forall|q: StopIndexerRequest| s@ == stop_request_text(q) implies false by {
                    lemma_stop_text_shape(q);
                }
            }
            return None;
        },
    };
    let name_owned = s.substring_char(55, len - 2).to_owned();
    let status = match IndexerStatus::parse(&name_owned) {
        Some(st) => st,
        None => {
            proof {
                assert forall|q: StopIndexerRequest| s@ == stop_request_text(q) implies false by {
                    lemma_stop_text_shape(q);
                    lemma_status_parse_name(q.status);
                }
            }
            return None;
        },
    };
    let parsed = StopIndexerRequest { id, status };
    proof {
        reveal_strlit("{\"id\":\"");
        reveal_strlit("\",\"status\":\"");
        reveal_strlit("\"}");
        assert(s@ =~= stop_request_text(parsed));
        assert forall|q: StopIndexerRequest| s@ == stop_request_text(q) implies Some(parsed)
            == Some(q) by {
            lemma_stop_text_shape(q);
            lemma_status_parse_name(q.status);
        }
    }
    Some(parsed)
}

/// Parse a fail message. Accepts exactly what `encode_fail_request`
/// produces.
pub fn parse_fail_request(s: &str) -> (r: Option<u128>)
    ensures
        r is Some ==> s@ == fail_request_text(r.unwrap()),
        forall|id: u128| s@ == fail_request_text(id) ==> r == Some(id),
{
    parse_uuid(s)
}

} // verus!

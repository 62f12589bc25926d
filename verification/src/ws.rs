//! The parameters of a collaboration connection, read from the query string
//! of the WebSocket request.

use vstd::prelude::*;
use crate::ids::{parse_uuid, parsed_uuid, random_uuid, uuid_string, uuid_text};
use crate::screenplay::opt_string_view;

verus! {

/// The query string of a connection: the session to join, and optionally
/// who is joining.
#[derive(Debug)]
pub struct WsQuery {
    pub session_id: String,
    pub user_id: Option<String>,
    pub user_name: Option<String>,
}

/// The session, participant and display name of a connection.
#[derive(Debug, PartialEq, Eq)]
pub struct ConnectionParams {
    pub session_id: u128,
    pub user_id: u128,
    pub user_name: String,
}

/// The session id of a connection: the query's, when it is a UUID, else a
/// fresh one.
pub open spec fn session_of(query_session: Seq<char>, fresh: u128) -> u128 {
    match parsed_uuid(query_session) {
        Some(id) => id,
        None => fresh,
    }
}

/// The participant id of a connection: the query's, when given and a UUID,
/// else a fresh one.
pub open spec fn user_of(query_user: Option<Seq<char>>, fresh: u128) -> u128 {
    match query_user {
        Some(t) => match parsed_uuid(t) {
            Some(id) => id,
            None => fresh,
        },
        None => fresh,
    }
}

/// The display name of a participant: the query's, else `User-` and the
/// first eight characters of the participant's id.
pub open spec fn name_of(query_name: Option<Seq<char>>, user_id: u128) -> Seq<char> {
    match query_name {
        Some(n) => n,
        None => "User-"@ + uuid_text(user_id).subrange(0, 8),
    }
}

/// The connection a query asks for, given the fresh ids to use where
/// the query gives none.
pub fn connection_params_with(query: &WsQuery, fresh_session: u128, fresh_user: u128) -> (r: ConnectionParams)
    ensures
        r.session_id == session_of(query.session_id@, fresh_session),
        r.user_id == user_of(opt_string_view(query.user_id), fresh_user),
        r.user_name@ == name_of(opt_string_view(query.user_name), r.user_id),
{
    let session_id = match parse_uuid(query.session_id.as_str()) {
        Some(id) => id,
        None => fresh_session,
    };
    let user_id = match &query.user_id {
        Some(t) => match parse_uuid(t.as_str()) {
            Some(id) => id,
            None => fresh_user,
        },
        None => fresh_user,
    };
    let user_name = match &query.user_name {
        Some(n) => n.clone(),
        None => {
            let text = crate::text::chars_of(uuid_string(user_id).as_str());
            let head = crate::text::copy_chars(vstd::slice::slice_subrange(text.as_slice(), 0, 8));
            let name = crate::text::concat_chars(crate::text::chars_of("User-").as_slice(), head.as_slice());
            crate::text::string_of(name.as_slice())
        },
    };
    ConnectionParams { session_id, user_id, user_name }
}

/// The connection a query asks for: ids the query does not give are
/// drawn at random.
pub fn connection_params(query: &WsQuery) -> (r: ConnectionParams)
    ensures
        exists|fs: u128, fu: u128| {
            &&& r.session_id == session_of(query.session_id@, fs)
            &&& r.user_id == user_of(opt_string_view(query.user_id), fu)
            &&& r.user_name@ == name_of(opt_string_view(query.user_name), r.user_id)
        },
{
    let fresh_session = random_uuid();
    let fresh_user = random_uuid();
    connection_params_with(query, fresh_session, fresh_user)
}

/// The session id a request path names: the UUID its text spells, none
/// for text that is not one.
pub fn session_id_of(text: &str) -> (r: Option<u128>)
    ensures
        r == parsed_uuid(text@),
{
    parse_uuid(text)
}

} // verus!

//! The line that is logged for a request that found nothing.

use vstd::prelude::*;
use vstd::string::StringExecFns;

verus! {

/// The status code of a response that found nothing.
pub const NOT_FOUND: u16 = 404;

/// Logs requests that are answered with "not found".
pub struct Log404;

/// A text that may be absent, as the contracts see it.
pub open spec fn heard(text: Option<&str>) -> Option<Seq<char>> {
    match text {
        Some(t) => Some(t@),
        None => None,
    }
}

/// The address that a request came from: what the proxy in front says it
/// was forwarded for, else what another proxy names as the client, else the
/// peer of the connection.
pub open spec fn client_of(
    forwarded_for: Option<Seq<char>>,
    client_ip: Option<Seq<char>>,
    peer: Option<Seq<char>>,
) -> Option<Seq<char>> {
    if forwarded_for is Some {
        forwarded_for
    } else if client_ip is Some {
        client_ip
    } else {
        peer
    }
}

/// The line for a request of `uri`: the page that referred to it in front,
/// where it is known, and the client behind, where it is known.
pub open spec fn not_found_line(
    uri: Seq<char>,
    referer: Option<Seq<char>>,
    client: Option<Seq<char>>,
) -> Seq<char> {
    "\x1b[33m404:\x1b[0m "@ + (match referer {
        Some(r) => "["@ + r + " =>]  "@,
        None => Seq::empty(),
    }) + uri + (match client {
        Some(ip) => "  (by "@ + ip + ")"@,
        None => Seq::empty(),
    })
}

impl Log404 {
    /// The line to log for a response, if it is one that found nothing.
    pub fn on_response(
        status: u16,
        uri: &str,
        referer: Option<&str>,
        forwarded_for: Option<&str>,
        client_ip: Option<&str>,
        peer: Option<&str>,
    ) -> (line: Option<String>)
        ensures
            status != NOT_FOUND ==> line is None,
            status == NOT_FOUND ==> (line matches Some(text) && text@ == not_found_line(
                uri@,
                heard(referer),
                client_of(heard(forwarded_for), heard(client_ip), heard(peer)),
            )),
    {
        if status != NOT_FOUND {
            return None;
        }
        let client = match forwarded_for {
            Some(ip) => Some(ip),
            None => match client_ip {
                Some(ip) => Some(ip),
                None => peer,
            },
        };
        let mut text = String::from_str("\x1b[33m404:\x1b[0m ");
        match referer {
            Some(r) => {
                let ghost before = text@;
                text = text.concat("[").concat(r).concat(" =>]  ");
                assert(text@ =~= before + ("["@ + r@ + " =>]  "@));
            },
            None => {
                assert(text@ =~= text@ + Seq::<char>::empty());
            },
        }
        text = text.concat(uri);
        match client {
            Some(ip) => {
                let ghost before = text@;
                text = text.concat("  (by ").concat(ip).concat(")");
                assert(text@ =~= before + ("  (by "@ + ip@ + ")"@));
            },
            None => {
                assert(text@ =~= text@ + Seq::<char>::empty());
            },
        }
        Some(text)
    }
}

} // verus!

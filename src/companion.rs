//! Request and response types of the companion server, its stream tickets,
//! and how its list requests are paged.
use vstd::prelude::*;

verus! {

/// Seconds a stream ticket stays valid.
pub const TICKET_LIFETIME_SECS: u64 = 600;

/// Tracks per page when a request names no limit.
pub const DEFAULT_PAGE_LIMIT: i64 = 50;

/// Most tracks a page may hold.
pub const MAX_PAGE_LIMIT: i64 = 500;

#[verifier::external_type_specification]
#[verifier::external_body]
pub struct ExInstant(std::time::Instant);

/// Relies on std::time::Instant::elapsed and Duration::as_secs: the whole
/// seconds since `t` on the monotonic clock.
#[verifier::external_body]
fn seconds_since(t: &std::time::Instant) -> (r: u64) {
    t.elapsed().as_secs()
}

/// A short-lived ticket that lets one track be streamed without the main
/// token in the URL.
#[derive(Debug)]
pub struct StreamTicket {
    pub track_id: i64,
    pub created_at: std::time::Instant,
}

/// Whether a ticket this many seconds old has expired.
pub fn expired_after(elapsed_secs: u64) -> (r: bool)
    ensures
        r == (elapsed_secs > TICKET_LIFETIME_SECS),
{
    elapsed_secs > TICKET_LIFETIME_SECS
}

impl StreamTicket {
    /// Whether the ticket is older than `TICKET_LIFETIME_SECS`, by the clock
    /// now.
    pub fn is_expired(&self) -> bool {
        expired_after(seconds_since(&self.created_at))
    }
}

/// Paging of a track list request.
#[derive(Clone, Copy, Debug, PartialEq, Eq, Structural)]
pub struct PaginationParams {
    pub limit: Option<i64>,
    pub offset: Option<i64>,
}

impl PaginationParams {
    /// The page size and offset to use: the limit defaults to
    /// `DEFAULT_PAGE_LIMIT` and is cut to `MAX_PAGE_LIMIT`; the offset
    /// defaults to 0.
    pub fn resolve(&self) -> (r: (i64, i64))
        ensures
            r.0 == match self.limit {
                Some(l) => if l < MAX_PAGE_LIMIT {
                    l
                } else {
                    MAX_PAGE_LIMIT
                },
                None => DEFAULT_PAGE_LIMIT,
            },
            r.1 == match self.offset {
                Some(o) => o,
                None => 0,
            },
    {
        let limit = match self.limit {
            Some(l) => if l < MAX_PAGE_LIMIT {
                l
            } else {
                MAX_PAGE_LIMIT
            },
            None => DEFAULT_PAGE_LIMIT,
        };
        let offset = match self.offset {
            Some(o) => o,
            None => 0,
        };
        (limit, offset)
    }
}

/// A track search request.
#[derive(Clone, Debug)]
pub struct SearchParams {
    pub q: Option<String>,
}

/// The server's name, version and library size.
#[derive(Clone, Debug)]
pub struct StatusResponse {
    pub name: String,
    pub version: String,
    pub track_count: i64,
}

/// A request for a stream ticket.
#[derive(Clone, Copy, Debug, PartialEq, Eq, Structural)]
pub struct StreamTicketRequest {
    pub track_id: i64,
}

/// A granted stream ticket.
#[derive(Debug)]
pub struct StreamTicketResponse {
    pub ticket: String,
    pub expires_in: u64,
    pub stream_url: String,
}

/// The URL the server is reached at.
#[derive(Clone, Debug)]
pub struct SelfUrlResponse {
    pub url: String,
}

/// The query of a stream request.
#[derive(Clone, Debug)]
pub struct StreamQuery {
    pub ticket: Option<String>,
}

/// Random bytes in an access token.
pub const TOKEN_BYTES: usize = 32;

/// The lower-case hexadecimal digit of `d` (below 16).
pub open spec fn hex_char(d: nat) -> char {
    if d == 0 {
        '0'
    } else if d == 1 {
        '1'
    } else if d == 2 {
        '2'
    } else if d == 3 {
        '3'
    } else if d == 4 {
        '4'
    } else if d == 5 {
        '5'
    } else if d == 6 {
        '6'
    } else if d == 7 {
        '7'
    } else if d == 8 {
        '8'
    } else if d == 9 {
        '9'
    } else if d == 10 {
        'a'
    } else if d == 11 {
        'b'
    } else if d == 12 {
        'c'
    } else if d == 13 {
        'd'
    } else if d == 14 {
        'e'
    } else {
        'f'
    }
}

/// Each byte of `b` as two lower-case hexadecimal digits, high digit first.
pub open spec fn hex_text(b: Seq<u8>) -> Seq<char>
    decreases b.len(),
{
    if b.len() == 0 {
        Seq::empty()
    } else {
        hex_text(b.drop_last()) + seq![hex_char(b.last() as nat / 16), hex_char(b.last() as nat % 16)]
    }
}

fn hex_digit_str(d: u8) -> (r: &'static str)
    requires
        d < 16,
    ensures
        r@ == seq![hex_char(d as nat)],
{
    match d {
        0 => {
            proof {
                reveal_strlit("0");
            }
            "0"
        },
        1 => {
            proof {
                reveal_strlit("1");
            }
            "1"
        },
        2 => {
            proof {
                reveal_strlit("2");
            }
            "2"
        },
        3 => {
            proof {
                reveal_strlit("3");
            }
            "3"
        },
        4 => {
            proof {
                reveal_strlit("4");
            }
            "4"
        },
        5 => {
            proof {
                reveal_strlit("5");
            }
            "5"
        },
        6 => {
            proof {
                reveal_strlit("6");
            }
            "6"
        },
        7 => {
            proof {
                reveal_strlit("7");
            }
            "7"
        },
        8 => {
            proof {
                reveal_strlit("8");
            }
            "8"
        },
        9 => {
            proof {
                reveal_strlit("9");
            }
            "9"
        },
        10 => {
            proof {
                reveal_strlit("a");
            }
            "a"
        },
        11 => {
            proof {
                reveal_strlit("b");
            }
            "b"
        },
        12 => {
            proof {
                reveal_strlit("c");
            }
            "c"
        },
        13 => {
            proof {
                reveal_strlit("d");
            }
            "d"
        },
        14 => {
            proof {
                reveal_strlit("e");
            }
            "e"
        },
        _ => {
            proof {
                reveal_strlit("f");
            }
            "f"
        },
    }
}

/// The bytes in lower-case hexadecimal, two digits per byte.
pub fn hex_encode(bytes: &Vec<u8>) -> (r: String)
    ensures
        r@ == hex_text(bytes@),
        r@.len() == 2 * bytes@.len(),
{
    let mut out = String::new();
    let mut i: usize = 0;
    assert(bytes@.take(0) =~= Seq::<u8>::empty());
    while i < bytes.len()
        invariant
            i <= bytes@.len(),
            out@ == hex_text(bytes@.take(i as int)),
            out@.len() == 2 * i,
        decreases bytes@.len() - i,
    {
        let b = bytes[i];
        let ghost prev = out@;
        out = out.concat(hex_digit_str(b / 16));
        out = out.concat(hex_digit_str(b % 16));
        proof {
            let t = bytes@.take(i as int + 1);
            assert(t.drop_last() =~= bytes@.take(i as int));
            assert(t.last() == b);
            assert(out@ =~= hex_text(t));
        }
        i += 1;
    }
    assert(bytes@.take(i as int) =~= bytes@);
    out
}

/// Relies on rand::random: a byte drawn from the thread-local generator;
/// nothing is known of its value.
#[verifier::external_body]
fn random_byte() -> (r: u8) {
    rand::random::<u8>()
}

/// A fresh access token: `TOKEN_BYTES` random bytes in lower-case
/// hexadecimal.
pub fn generate_token() -> (r: String)
    ensures
        exists|b: Seq<u8>| b.len() == TOKEN_BYTES && r@ == hex_text(b),
        r@.len() == 2 * TOKEN_BYTES,
{
    let mut bytes: Vec<u8> = Vec::new();
    let mut i: usize = 0;
    while i < TOKEN_BYTES
        invariant
            i <= TOKEN_BYTES,
            bytes@.len() == i,
        decreases TOKEN_BYTES - i,
    {
        bytes.push(random_byte());
        i += 1;
    }
    let r = hex_encode(&bytes);
    assert(bytes@.len() == TOKEN_BYTES && r@ == hex_text(bytes@));
    r
}

} // verus!

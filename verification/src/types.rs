//! The plain data model of DNS messages as the resolver sees them.
//!
//! Names are ASCII byte strings as they appear in presentation form
//! (labels separated by dots, with a trailing dot once canonicalised).
//! Record data is a tagged union over the record types the resolver
//! pattern-matches on; every other type is carried opaquely as `Other`.

use vstd::prelude::*;

verus! {

/// Record type code for an IPv4 host address.
pub const RT_A: u16 = 1;
/// Record type code for a name server.
pub const RT_NS: u16 = 2;
/// Record type code for a canonical-name alias.
pub const RT_CNAME: u16 = 5;
/// Record type code for an IPv6 host address.
pub const RT_AAAA: u16 = 28;

/// Response code of a successful answer.
pub const RCODE_NO_ERROR: u8 = 0;
/// Response code reporting a server-side failure.
pub const RCODE_SERV_FAIL: u8 = 2;

/// An IP address of a name server, IPv4 as four octets or IPv6 as
/// eight sixteen-bit groups.
#[derive(Clone, Copy, Debug, PartialEq, Eq, Structural)]
pub enum IpAddress {
    V4(u8, u8, u8, u8),
    V6(u16, u16, u16, u16, u16, u16, u16, u16),
}

impl View for IpAddress {
    type V = IpAddress;

    open spec fn view(&self) -> IpAddress {
        *self
    }
}

impl DeepView for IpAddress {
    type V = IpAddress;

    open spec fn deep_view(&self) -> IpAddress {
        *self
    }
}

/// The data of a resource record, as far as the resolver reads it.
#[derive(Debug, PartialEq, Eq)]
pub enum RData {
    /// An IPv4 host address.
    A(IpAddress),
    /// An IPv6 host address.
    Aaaa(IpAddress),
    /// The name of a delegated name server.
    Ns(Vec<u8>),
    /// The canonical name an alias points at.
    Cname(Vec<u8>),
    /// Data of a record type the resolver does not read.
    Other,
}

/// The mathematical value of an [`RData`].
#[verifier::ext_equal]
pub enum RDataV {
    A(IpAddress),
    Aaaa(IpAddress),
    Ns(Seq<u8>),
    Cname(Seq<u8>),
    Other,
}

impl View for RData {
    type V = RDataV;

    open spec fn view(&self) -> RDataV {
        match self {
            RData::A(ip) => RDataV::A(*ip),
            RData::Aaaa(ip) => RDataV::Aaaa(*ip),
            RData::Ns(n) => RDataV::Ns(n@),
            RData::Cname(n) => RDataV::Cname(n@),
            RData::Other => RDataV::Other,
        }
    }
}

impl DeepView for RData {
    type V = RDataV;

    open spec fn deep_view(&self) -> RDataV {
        self@
    }
}

impl Clone for RData {
    fn clone(&self) -> (r: Self)
        ensures
            r@ == self@,
    {
        match self {
            RData::A(ip) => RData::A(*ip),
            RData::Aaaa(ip) => RData::Aaaa(*ip),
            RData::Ns(n) => RData::Ns(n.clone()),
            RData::Cname(n) => RData::Cname(n.clone()),
            RData::Other => RData::Other,
        }
    }
}

/// One resource record of a DNS message.
#[derive(Debug, PartialEq, Eq)]
pub struct Record {
    /// The owner name, in presentation form.
    pub name: Vec<u8>,
    /// The record type code.
    pub rtype: u16,
    /// Whether the record's class is IN; records of any other class are ignored.
    pub class_in: bool,
    /// Time to live, in seconds.
    pub ttl: u32,
    /// The record data.
    pub data: RData,
}

/// The mathematical value of a [`Record`].
#[verifier::ext_equal]
pub struct RecordV {
    pub name: Seq<u8>,
    pub rtype: u16,
    pub class_in: bool,
    pub ttl: u32,
    pub data: RDataV,
}

impl View for Record {
    type V = RecordV;

    open spec fn view(&self) -> RecordV {
        RecordV {
            name: self.name@,
            rtype: self.rtype,
            class_in: self.class_in,
            ttl: self.ttl,
            data: self.data@,
        }
    }
}

impl DeepView for Record {
    type V = RecordV;

    open spec fn deep_view(&self) -> RecordV {
        self@
    }
}

impl Clone for Record {
    fn clone(&self) -> (r: Self)
        ensures
            r@ == self@,
    {
        Record {
            name: self.name.clone(),
            rtype: self.rtype,
            class_in: self.class_in,
            ttl: self.ttl,
            data: self.data.clone(),
        }
    }
}

/// One question of a DNS message.
#[derive(Debug, PartialEq, Eq)]
pub struct Question {
    /// The queried name, in presentation form.
    pub name: Vec<u8>,
    /// The queried record type code.
    pub qtype: u16,
}

/// The mathematical value of a [`Question`].
#[verifier::ext_equal]
pub struct QuestionV {
    pub name: Seq<u8>,
    pub qtype: u16,
}

impl View for Question {
    type V = QuestionV;

    open spec fn view(&self) -> QuestionV {
        QuestionV { name: self.name@, qtype: self.qtype }
    }
}

impl DeepView for Question {
    type V = QuestionV;

    open spec fn deep_view(&self) -> QuestionV {
        self@
    }
}

impl Clone for Question {
    fn clone(&self) -> (r: Self)
        ensures
            r@ == self@,
    {
        Question { name: self.name.clone(), qtype: self.qtype }
    }
}

/// A decoded DNS message: the header fields the resolver reads and the
/// four record sections.
#[derive(Debug, PartialEq, Eq)]
pub struct Message {
    pub id: u16,
    pub op_code: u8,
    pub response_code: u8,
    pub is_response: bool,
    pub recursion_desired: bool,
    pub recursion_available: bool,
    pub questions: Vec<Question>,
    pub answers: Vec<Record>,
    pub authorities: Vec<Record>,
    pub additionals: Vec<Record>,
}

/// The mathematical value of a [`Message`].
#[verifier::ext_equal]
pub struct MessageV {
    pub id: u16,
    pub op_code: u8,
    pub response_code: u8,
    pub is_response: bool,
    pub recursion_desired: bool,
    pub recursion_available: bool,
    pub questions: Seq<QuestionV>,
    pub answers: Seq<RecordV>,
    pub authorities: Seq<RecordV>,
    pub additionals: Seq<RecordV>,
}

impl View for Message {
    type V = MessageV;

    open spec fn view(&self) -> MessageV {
        MessageV {
            id: self.id,
            op_code: self.op_code,
            response_code: self.response_code,
            is_response: self.is_response,
            recursion_desired: self.recursion_desired,
            recursion_available: self.recursion_available,
            questions: self.questions.deep_view(),
            answers: self.answers.deep_view(),
            authorities: self.authorities.deep_view(),
            additionals: self.additionals.deep_view(),
        }
    }
}

impl DeepView for Message {
    type V = MessageV;

    open spec fn deep_view(&self) -> MessageV {
        self@
    }
}

/// The IP address carried by a record's data, for address records of
/// class IN; every other record yields nothing.
pub open spec fn ip_of_rdata_spec(r: RecordV) -> Option<IpAddress> {
    if !r.class_in {
        None
    } else {
        match r.data {
            RDataV::A(ip) => Some(ip),
            RDataV::Aaaa(ip) => Some(ip),
            _ => None,
        }
    }
}

/// Extracts the IP address from an address record, ignoring records
/// whose class is not IN.
pub fn extract_ip_from_rdata(r: &Record) -> (res: Option<IpAddress>)
    ensures
        res == ip_of_rdata_spec(r@),
{
    if !r.class_in {
        None
    } else {
        match &r.data {
            RData::A(ip) => Some(*ip),
            RData::Aaaa(ip) => Some(*ip),
            _ => None,
        }
    }
}

/// Copies a record list; the copy has the same mathematical value.
pub fn copy_records(rs: &Vec<Record>) -> (r: Vec<Record>)
    ensures
        r.deep_view() == rs.deep_view(),
{
    let r = rs.clone();
    proof {
        broadcast use vstd::std_specs::vec::vec_clone_deep_view_proof;

        assert forall|i: int| 0 <= i < rs@.len() implies r.deep_view()[i] == rs.deep_view()[i] by {
            assert(vstd::pervasive::cloned::<Record>(rs[i], r[i]));
        }
        assert(r.deep_view() =~= rs.deep_view());
    }
    r
}

/// Copies a question list; the copy has the same mathematical value.
pub fn copy_questions(qs: &Vec<Question>) -> (r: Vec<Question>)
    ensures
        r.deep_view() == qs.deep_view(),
{
    let r = qs.clone();
    proof {
        broadcast use vstd::std_specs::vec::vec_clone_deep_view_proof;

        assert forall|i: int| 0 <= i < qs@.len() implies r.deep_view()[i] == qs.deep_view()[i] by {
            assert(vstd::pervasive::cloned::<Question>(qs[i], r[i]));
        }
        assert(r.deep_view() =~= qs.deep_view());
    }
    r
}

} // verus!

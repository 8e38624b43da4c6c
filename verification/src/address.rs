//! Addresses and the envelope of a message: who sends it and who receives it.

use crate::error::{ErrorView, ForwardError};
use crate::text::{split_whitespace, texts, tokens};
use vstd::prelude::*;
use vstd::string::*;

verus! {

/// The most characters that an address may have here: 64 for the local
/// part, the `@`, and 255 for the domain, the longest that mail submission
/// allows. A longer text is refused without being parsed. In this the
/// library is stricter than lettre, which accepts some longer texts: a
/// domain followed by characters that the conversion of international names
/// drops.
pub const MAX_ADDRESS_LENGTH: usize = 320;

/// The most characters that an address may have which holds anything but
/// ASCII. The parser converts international domain names: it may replace one
/// character by up to eighteen, and its encoder overflows on a label of
/// some 3,856 characters. A text of 200 characters stays well under that; a
/// longer one that is not all ASCII is refused without being parsed, though
/// lettre might accept it.
pub const MAX_INTERNATIONAL_LENGTH: usize = 200;

/// Whether `text` is an address that lettre accepts: whether
/// `<lettre::Address as FromStr>::from_str` returns `Ok` for it.
pub uninterp spec fn address_accepted(text: Seq<char>) -> bool;

/// Whether `text` is short enough to be parsed: at most
/// `MAX_ADDRESS_LENGTH` characters, and at most `MAX_INTERNATIONAL_LENGTH`
/// unless all of them are ASCII.
pub open spec fn short_enough(text: Seq<char>) -> bool {
    &&& text.len() <= MAX_ADDRESS_LENGTH
    &&& vstd::utf8::is_ascii_chars(text) || text.len() <= MAX_INTERNATIONAL_LENGTH
}

/// Whether `text` is a valid address: short enough, and accepted by lettre.
pub open spec fn address_valid(text: Seq<char>) -> bool {
    short_enough(text) && address_accepted(text)
}

/// Parses `text` as a `lettre::Address` and says whether that succeeded.
/// Trusted: the answer depends on the text alone. It is asked only of texts
/// that are short enough, on which the parser's conversion of international
/// names stays within its arithmetic: an ASCII text is not expanded, and
/// another of at most 200 characters gives labels of at most 3,600.
#[verifier::external_body]
fn address_parses(text: &str) -> (ok: bool)
    requires
        short_enough(text@),
    ensures
        ok == address_accepted(text@),
{
    text.parse::<lettre::Address>().is_ok()
}

/// Whether `text` is a valid address. A text that is not short enough is
/// none, and is not parsed: one of more than `MAX_ADDRESS_LENGTH`
/// characters, or of more than `MAX_INTERNATIONAL_LENGTH` with anything but
/// ASCII among them. Any other text is valid exactly where lettre accepts
/// it.
pub fn is_valid_address(text: &str) -> (valid: bool)
    ensures
        valid == address_valid(text@),
{
    let length: usize = text.unicode_len();
    if length > MAX_ADDRESS_LENGTH {
        false
    } else if length > MAX_INTERNATIONAL_LENGTH && !text.is_ascii() {
        false
    } else {
        address_parses(text)
    }
}

/// The sender's address: the identity, an `@`, and the domain.
pub open spec fn sender_text(identity: Seq<char>, domain: Seq<char>) -> Seq<char> {
    identity + seq!['@'] + domain
}

/// For each of `candidates`, whether it is a valid address.
pub open spec fn verdicts_of(candidates: Seq<Seq<char>>) -> Seq<bool> {
    candidates.map_values(|text: Seq<char>| address_valid(text))
}

/// The place of the first `false` among `verdicts`, if there is one.
pub open spec fn first_refused(verdicts: Seq<bool>) -> Option<int>
    decreases verdicts.len(),
{
    if verdicts.len() == 0 {
        None
    } else if !verdicts[0] {
        Some(0)
    } else {
        match first_refused(verdicts.skip(1)) {
            Some(i) => Some(i + 1),
            None => None,
        }
    }
}

/// The candidates, where every verdict on them is favourable, or else the
/// first candidate with an unfavourable verdict as an invalid address.
pub open spec fn selected(candidates: Seq<Seq<char>>, verdicts: Seq<bool>) -> Result<
    Seq<Seq<char>>,
    ErrorView,
> {
    match first_refused(verdicts) {
        Some(i) => Err(ErrorView::InvalidAddress(candidates[i])),
        None => Ok(candidates),
    }
}

/// The addresses that a whitespace-separated list names, or the first token
/// of the list that is no valid address.
pub open spec fn recipients_of(list: Seq<char>) -> Result<Seq<Seq<char>>, ErrorView> {
    selected(tokens(list), verdicts_of(tokens(list)))
}

/// Who sends a message and who receives it, each as a sequence of
/// characters.
pub ghost struct EnvelopeView {
    pub sender: Seq<char>,
    pub recipients: Seq<Seq<char>>,
}

impl EnvelopeView {
    /// Whether the sender and every recipient is a valid address.
    pub open spec fn valid(self) -> bool {
        &&& address_valid(self.sender)
        &&& forall|i: int|
            0 <= i < self.recipients.len() ==> address_valid(#[trigger] self.recipients[i])
    }
}

/// The envelope of a sender and its recipients, given the verdict on the
/// sender and what came of reading the recipients. The sender is judged
/// first: where it is refused, it is the invalid address, whatever the
/// recipients are.
pub open spec fn assembled(
    sender: Seq<char>,
    sender_accepted: bool,
    recipients: Result<Seq<Seq<char>>, ErrorView>,
) -> Result<EnvelopeView, ErrorView> {
    if !sender_accepted {
        Err(ErrorView::InvalidAddress(sender))
    } else {
        match recipients {
            Ok(recipients) => Ok(EnvelopeView { sender, recipients }),
            Err(e) => Err(e),
        }
    }
}

/// The envelope for a message from `identity` at `domain` to the addresses
/// in `list`. The sender is examined first, then the recipients in their
/// order; the first text that is no valid address, be it not short enough
/// or refused by the parser, is the error.
pub open spec fn envelope_of(identity: Seq<char>, domain: Seq<char>, list: Seq<char>) -> Result<
    EnvelopeView,
    ErrorView,
> {
    let sender = sender_text(identity, domain);
    assembled(sender, address_valid(sender), recipients_of(list))
}

/// The views of the recipients that were read, or of the error.
pub open spec fn recipients_view(r: Result<Vec<String>, ForwardError>) -> Result<
    Seq<Seq<char>>,
    ErrorView,
> {
    match r {
        Ok(recipients) => Ok(texts(recipients@)),
        Err(e) => Err(e@),
    }
}

/// The view of the envelope that was built, or of the error.
pub open spec fn envelope_view(r: Result<Envelope, ForwardError>) -> Result<
    EnvelopeView,
    ErrorView,
> {
    match r {
        Ok(envelope) => Ok(envelope@),
        Err(e) => Err(e@),
    }
}

/// The sender and the recipients of one message. There is at least one
/// recipient.
#[derive(Debug, PartialEq, Eq)]
pub struct Envelope {
    sender: String,
    recipients: Vec<String>,
}

impl View for Envelope {
    type V = EnvelopeView;

    closed spec fn view(&self) -> EnvelopeView {
        EnvelopeView { sender: self.sender@, recipients: texts(self.recipients@) }
    }
}

impl Clone for Envelope {
    fn clone(&self) -> (copy: Envelope)
        ensures
            copy@ == self@,
    {
        proof {
            use_type_invariant(self);
        }
        let mut recipients: Vec<String> = Vec::new();
        let mut i: usize = 0;
        while i < self.recipients.len()
            invariant
                i <= self.recipients.len(),
                recipients@.len() == i,
                forall|k: int| 0 <= k < i ==> (#[trigger] recipients@[k])@ == self.recipients@[k]@,
            decreases self.recipients.len() - i,
        {
            recipients.push(self.recipients[i].clone());
            i += 1;
        }
        assert(texts(recipients@) =~= texts(self.recipients@));
        Envelope { sender: self.sender.clone(), recipients }
    }
}

impl Envelope {
    #[verifier::type_invariant]
    spec fn inv(self) -> bool {
        self.recipients@.len() > 0
    }

    /// An envelope from `sender` to `recipients`, or nothing where there is
    /// no recipient.
    pub fn new(sender: String, recipients: Vec<String>) -> (made: Option<Envelope>)
        ensures
            match made {
                Some(envelope) => recipients@.len() > 0 && envelope@ == (EnvelopeView {
                    sender: sender@,
                    recipients: texts(recipients@),
                }),
                None => recipients@.len() == 0,
            },
    {
        if recipients.len() == 0 {
            None
        } else {
            Some(Envelope { sender, recipients })
        }
    }

    /// The sender's address.
    pub fn sender(&self) -> (sender: &String)
        ensures
            sender@ == self@.sender,
    {
        &self.sender
    }

    /// The recipients' addresses, in their order: at least one.
    pub fn recipients(&self) -> (recipients: &Vec<String>)
        ensures
            texts(recipients@) == self@.recipients,
            recipients@.len() > 0,
    {
        proof {
            use_type_invariant(self);
        }
        &self.recipients
    }
}

/// The first refused verdict is refused and every verdict before it is
/// favourable; none is refused exactly where all are favourable.
pub proof fn lemma_first_refused(verdicts: Seq<bool>)
    ensures
        match first_refused(verdicts) {
            Some(i) => 0 <= i < verdicts.len() && !verdicts[i] && forall|k: int|
                0 <= k < i ==> verdicts[k],
            None => forall|k: int| 0 <= k < verdicts.len() ==> verdicts[k],
        },
    decreases verdicts.len(),
{
    if verdicts.len() > 0 && verdicts[0] {
        let rest = verdicts.skip(1);
        lemma_first_refused(rest);
        match first_refused(rest) {
            Some(i) => {
                assert(verdicts[i + 1] == rest[i]);
                assert forall|k: int| 0 <= k < i + 1 implies verdicts[k] by {
                    if k > 0 {
                        assert(verdicts[k] == rest[k - 1]);
                    }
                }
            },
            None => {
                assert forall|k: int| 0 <= k < verdicts.len() implies verdicts[k] by {
                    if k > 0 {
                        assert(verdicts[k] == rest[k - 1]);
                    }
                }
            },
        }
    }
}

/// Where the list is read without error, each of its tokens is a valid
/// address; where not, the error names a token of the list that is none.
pub proof fn lemma_recipients_of(list: Seq<char>)
    ensures
        match recipients_of(list) {
            Ok(recipients) => recipients == tokens(list) && forall|i: int|
                0 <= i < recipients.len() ==> address_valid(#[trigger] recipients[i]),
            Err(e) => e matches ErrorView::InvalidAddress(token) && tokens(list).contains(token)
                && !address_valid(token),
        },
{
    let candidates = tokens(list);
    lemma_first_refused(verdicts_of(candidates));
    match first_refused(verdicts_of(candidates)) {
        Some(i) => {
            assert(tokens(list).contains(candidates[i]));
        },
        None => {
            assert forall|i: int| 0 <= i < candidates.len() implies address_valid(
                #[trigger] candidates[i],
            ) by {
                assert(verdicts_of(candidates)[i]);
            }
        },
    }
}

/// The sender's address for `identity` at `domain`: the two joined by `@`.
pub fn sender_address(identity: &str, domain: &str) -> (address: String)
    ensures
        address@ == sender_text(identity@, domain@),
{
    let mut address = String::from_str(identity);
    address.append("@");
    address.append(domain);
    proof {
        reveal_strlit("@");
        assert("@"@ =~= seq!['@']);
    }
    address
}

/// The place of the first `false` in `verdicts`, if there is one.
pub fn first_refused_index(verdicts: &Vec<bool>) -> (found: Option<usize>)
    ensures
        match found {
            Some(i) => first_refused(verdicts@) == Some(i as int),
            None => first_refused(verdicts@) is None,
        },
        match found {
            Some(i) => i < verdicts@.len() && !verdicts@[i as int] && forall|k: int|
                0 <= k < i ==> verdicts@[k],
            None => forall|k: int| 0 <= k < verdicts@.len() ==> verdicts@[k],
        },
{
    let mut i: usize = 0;
    while i < verdicts.len()
        invariant
            i <= verdicts.len(),
            forall|k: int| 0 <= k < i ==> verdicts@[k],
        decreases verdicts.len() - i,
    {
        if !verdicts[i] {
            proof {
                lemma_first_refused(verdicts@);
            }
            return Some(i);
        }
        i += 1;
    }
    proof {
        lemma_first_refused(verdicts@);
    }
    None
}

/// Chooses among `candidates` by the verdicts on them, one for each: all of
/// them where every verdict is favourable, and else `InvalidAddress` with
/// the first candidate whose verdict is not.
pub fn recipients_from(candidates: Vec<String>, verdicts: &Vec<bool>) -> (r: Result<
    Vec<String>,
    ForwardError,
>)
    requires
        candidates@.len() == verdicts@.len(),
    ensures
        recipients_view(r) == selected(texts(candidates@), verdicts@),
        r matches Ok(recipients) ==> recipients@ == candidates@,
{
    match first_refused_index(verdicts) {
        Some(i) => Err(ForwardError::InvalidAddress(candidates[i].clone())),
        None => Ok(candidates),
    }
}

/// Puts an envelope together from the sender, the verdict on the sender, and
/// what came of reading the recipients. A refused sender is the error,
/// whatever the recipients are; with an accepted sender, an error among the
/// recipients is passed on.
pub fn envelope_from(
    sender: String,
    sender_accepted: bool,
    recipients: Result<Vec<String>, ForwardError>,
) -> (r: Result<Envelope, ForwardError>)
    requires
        recipients matches Ok(list) ==> list@.len() > 0,
    ensures
        envelope_view(r) == assembled(sender@, sender_accepted, recipients_view(recipients)),
{
    if !sender_accepted {
        return Err(ForwardError::InvalidAddress(sender));
    }
    match recipients {
        Ok(list) => Ok(Envelope { sender, recipients: list }),
        Err(e) => Err(e),
    }
}

/// Reads a whitespace-separated list of addresses. The result holds the
/// tokens of the list in their order where each of them is a valid address;
/// where one is not, because it is not short enough to be parsed or because
/// the parser refuses it, the result is `InvalidAddress` with the first such
/// token.
pub fn parse_recipients(list: &str) -> (r: Result<Vec<String>, ForwardError>)
    ensures
        recipients_view(r) == recipients_of(list@),
        r matches Ok(recipients) ==> texts(recipients@) == tokens(list@),
{
    let candidates = split_whitespace(list);
    let mut verdicts: Vec<bool> = Vec::new();
    let mut i: usize = 0;
    while i < candidates.len()
        invariant
            i <= candidates.len(),
            verdicts@.len() == i,
            forall|k: int|
                0 <= k < i ==> verdicts@[k] == address_valid(#[trigger] texts(candidates@)[k]),
        decreases candidates.len() - i,
    {
        verdicts.push(is_valid_address(candidates[i].as_str()));
        i += 1;
    }
    assert(verdicts@ =~= verdicts_of(texts(candidates@)));
    recipients_from(candidates, &verdicts)
}

/// Builds the envelope of a message that `identity` at `domain` sends to the
/// addresses in the whitespace-separated `list`. Fails with `InvalidAddress`
/// and the offending text where the sender or a recipient is no valid
/// address, not short enough or refused by the parser: the sender is
/// examined first, then the recipients in their order.
pub fn build_envelope(identity: &str, domain: &str, list: &str) -> (r: Result<
    Envelope,
    ForwardError,
>)
    requires
        tokens(list@).len() > 0,
    ensures
        envelope_view(r) == envelope_of(identity@, domain@, list@),
        r matches Ok(envelope) ==> envelope@.valid(),
{
    let sender = sender_address(identity, domain);
    let sender_accepted = is_valid_address(sender.as_str());
    let recipients = parse_recipients(list);
    proof {
        lemma_recipients_of(list@);
    }
    envelope_from(sender, sender_accepted, recipients)
}

} // verus!

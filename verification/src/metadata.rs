//! The metadata of an instance: its identity, its hostname and its SSH keys.

use crate::error;
use crate::error::{Error, ErrorModel};
use crate::text;
use vstd::hash_map::StringHashMap;
use vstd::prelude::*;

verus! {

/// The metadata that is read of an instance.
#[derive(Debug)]
pub struct MetaDataJSON {
    /// Local hostname.
    pub hostname: String,
    /// Instance ID (UUID).
    pub instance_id: String,
    /// Instance type.
    pub instance_type: Option<String>,
    /// SSH public keys with the names that they are listed under, each name once.
    pub public_keys: Option<Vec<(String, String)>>,
}

/// An SSH public key.
#[derive(Debug)]
pub struct PublicKey {
    /// What stands before the key, such as restrictions on its use.
    pub options: Option<String>,
    /// The name of the key's algorithm.
    pub key_type: String,
    /// The key itself, in the encoding of the SSH protocol.
    pub data: Vec<u8>,
    /// What stands behind the key.
    pub comment: Option<String>,
}

/// What a [`PublicKey`] says, with its texts and bytes as sequences.
pub struct PublicKeyModel {
    pub options: Option<Seq<char>>,
    pub key_type: Seq<char>,
    pub data: Seq<u8>,
    pub comment: Option<Seq<char>>,
}

impl View for PublicKey {
    type V = PublicKeyModel;

    open spec fn view(&self) -> PublicKeyModel {
        PublicKeyModel {
            options: self.options.deep_view(),
            key_type: self.key_type@,
            data: self.data@,
            comment: self.comment.deep_view(),
        }
    }
}

impl DeepView for PublicKey {
    type V = PublicKeyModel;

    open spec fn deep_view(&self) -> PublicKeyModel {
        self@
    }
}

/// Where what precedes the key type on a line ends: behind the first space or tab that is
/// neither quoted nor escaped, or the second one on a line that starts with a marker. It is
/// 0 if there is no such place.
pub open spec fn options_end(
    line: Seq<char>,
    i: int,
    escaped: bool,
    quoted: bool,
    marked: bool,
) -> int
    decreases line.len() - i,
{
    if i >= line.len() {
        0
    } else if line[i] == '\\' {
        options_end(line, i + 1, true, quoted, marked)
    } else if escaped {
        options_end(line, i + 1, false, quoted, marked)
    } else {
        let inside = if line[i] == '"' {
            !quoted
        } else {
            quoted
        };
        if inside || (line[i] != ' ' && line[i] != '\t') {
            options_end(line, i + 1, false, inside, marked)
        } else if marked {
            options_end(line, i + 1, false, inside, false)
        } else {
            i + 1
        }
    }
}

/// Where the options of a key line end.
pub open spec fn cut_of(line: Seq<char>) -> int {
    options_end(line, 0, false, false, line.len() > 0 && line.first() == '@')
}

/// Whether a line can be cut behind the blank that ends its options, and before it, at the bytes
/// whose numbers are those of the characters there: both are places between two characters.
pub open spec fn cuts_cleanly(line: Seq<char>) -> bool {
    let bytes = vstd::utf8::encode_utf8(line);
    &&& vstd::utf8::is_char_boundary(bytes, cut_of(line))
    &&& cut_of(line) > 0 ==> vstd::utf8::is_char_boundary(bytes, cut_of(line) - 1)
}

/// Whether a line is a key without options: with a space behind its first word, which changes
/// nothing of a key and lets it be cut, it is read as one.
pub open spec fn is_bare_key(line: Seq<char>) -> bool {
    let at = text::next_blank(line, 0);
    let spaced = line.update(at, ' ');
    &&& 0 < at < line.len()
    &&& cuts_cleanly(text::trimmed(spaced))
    &&& public_key_from_str(spaced) matches Ok(key)
    &&& key.options is None
}

/// Whether the key parser returns on a text. It does if it need not cut the line, which then is
/// a key without options; if it can cut the line; and if it can cut it behind its options, and
/// finds no key there, which spares the other cut.
pub open spec fn can_be_parsed(key: Seq<char>) -> bool {
    let line = text::trimmed(key);
    let bytes = vstd::utf8::encode_utf8(line);
    ||| cuts_cleanly(line)
    ||| is_bare_key(line)
    ||| {
        &&& vstd::utf8::is_char_boundary(bytes, cut_of(line))
        &&& !is_bare_key(
            vstd::utf8::decode_utf8(bytes.subrange(cut_of(line), bytes.len() as int)),
        )
    }
}

/// The key that `openssh_keys::PublicKey::parse` reads from a text, or the message of its
/// error.
pub uninterp spec fn public_key_from_str(text: Seq<char>) -> Result<PublicKeyModel, Seq<char>>;

/// `openssh_keys::PublicKey::parse`. Whether and as which key a text is read is left to
/// `openssh_keys`; the result depends on the text alone. A line that `parse` cannot read as it
/// stands is cut behind its options, and if what follows is a key also before the blank there,
/// at bytes whose numbers are found by counting characters. A cut inside a character panics,
/// so the texts on which that happens are left out, and no others. `usize` is taken to have 64
/// bits, in which no length that a key states can overflow.
#[verifier::external_body]
fn parse_key(text: &str) -> (result: Result<PublicKey, String>)
    requires
        can_be_parsed(text@),
    ensures
        match result {
            Ok(key) => public_key_from_str(text@) == Ok::<PublicKeyModel, Seq<char>>(key@),
            Err(message) => public_key_from_str(text@) == Err::<PublicKeyModel, Seq<char>>(
                message@,
            ),
        },
{
    match openssh_keys::PublicKey::parse(text) {
        Ok(key) => Ok(
            PublicKey {
                key_type: key.keytype().to_string(),
                data: key.data(),
                options: key.options,
                comment: key.comment,
            },
        ),
        Err(error) => Err(error.to_string()),
    }
}

impl PublicKey {
    /// The key that a text is read as, or why it is none.
    pub open spec fn of_text(text: Seq<char>) -> Result<PublicKeyModel, ErrorModel> {
        match public_key_from_str(text) {
            Ok(key) => Ok(key),
            Err(message) => Err(ErrorModel::InvalidPublicKey(message)),
        }
    }

    /// Whether [`PublicKey::parse`] may be given a text.
    pub fn parses(text: &str) -> (result: bool)
        ensures
            result == can_be_parsed(text@),
    {
        let line = text::trim(text);
        if line_cuts_cleanly(line) || line_is_bare_key(line) {
            return true;
        }
        let end = find_cut(line);
        if !line.is_char_boundary(end) {
            return false;
        }
        let rest = line.split_at(end).1;
        proof {
            vstd::utf8::encode_utf8_decode_utf8(rest@);
        }
        !line_is_bare_key(rest)
    }

    /// Reads a key as it stands in a file of authorized keys.
    pub fn parse(text: &str) -> (result: Result<PublicKey, Error>)
        requires
            can_be_parsed(text@),
        ensures
            error::outcome(result) == PublicKey::of_text(text@),
    {
        match parse_key(text) {
            Ok(key) => Ok(key),
            Err(message) => Err(Error::InvalidPublicKey(message)),
        }
    }

    /// Reads a key as it stands in a file of authorized keys. There is no result for a text that
    /// [`PublicKey::parse`] may not be given.
    pub fn try_parse(text: &str) -> (result: Option<Result<PublicKey, Error>>)
        ensures
            match result {
                Some(read) => {
                    &&& can_be_parsed(text@)
                    &&& error::outcome(read) == PublicKey::of_text(text@)
                },
                None => !can_be_parsed(text@),
            },
    {
        if PublicKey::parses(text) {
            Some(PublicKey::parse(text))
        } else {
            None
        }
    }
}

/// Where the options of a key line end.
fn find_cut(line: &str) -> (result: usize)
    ensures
        result == cut_of(line@),
{
    let length = line.unicode_len();
    let mut escaped = false;
    let mut quoted = false;
    let mut marked = length > 0 && line.get_char(0) == '@';
    let mut i: usize = 0;
    while i < length
        invariant
            i <= length,
            length == line@.len(),
            cut_of(line@) == options_end(line@, i as int, escaped, quoted, marked),
        decreases length - i,
    {
        let c = line.get_char(i);
        if c == '\\' {
            escaped = true;
        } else if escaped {
            escaped = false;
        } else {
            if c == '"' {
                quoted = !quoted;
            }
            if !quoted && (c == ' ' || c == '\t') {
                if marked {
                    marked = false;
                } else {
                    return i + 1;
                }
            }
        }
        i = i + 1;
    }
    0
}

/// Whether a line can be cut where its options end.
fn line_cuts_cleanly(line: &str) -> (result: bool)
    ensures
        result == cuts_cleanly(line@),
{
    let end = find_cut(line);
    line.is_char_boundary(end) && (end == 0 || line.is_char_boundary(end - 1))
}

/// Whether a line is a key without options.
fn line_is_bare_key(line: &str) -> (result: bool)
    ensures
        result == is_bare_key(line@),
{
    let length = line.unicode_len();
    let at = text::find_blank(line);
    if at == 0 || at >= length {
        return false;
    }
    let mut spaced = line.substring_char(0, at).to_owned();
    spaced.append(" ");
    spaced.append(line.substring_char(at + 1, length));
    proof {
        reveal_strlit(" ");
        assert(spaced@ =~= line@.update(at as int, ' '));
    }
    if !line_cuts_cleanly(text::trim(spaced.as_str())) {
        return false;
    }
    match parse_key(spaced.as_str()) {
        Ok(key) => key.options.is_none(),
        Err(_) => false,
    }
}

/// The keys that the listed texts are read as, or why the first that is none is refused.
pub open spec fn keys_of(listed: Seq<(String, String)>) -> Result<
    Seq<PublicKeyModel>,
    ErrorModel,
> {
    error::collected(listed.map_values(|entry: (String, String)| PublicKey::of_text(entry.1@)))
}

/// Attributes with their values as sequences of characters.
pub open spec fn attribute_texts(attributes: Map<Seq<char>, String>) -> Map<Seq<char>, Seq<char>> {
    attributes.map_values(|value: String| value@)
}

impl MetaDataJSON {
    /// The attributes that identify the instance: its ID, its hostname and, where it has
    /// one, its type. An empty ID or hostname is refused.
    pub open spec fn attributes(self) -> Result<Map<Seq<char>, Seq<char>>, ErrorModel> {
        if self.instance_id@.len() == 0 {
            Err(ErrorModel::EmptyInstanceId)
        } else if self.hostname@.len() == 0 {
            Err(ErrorModel::EmptyHostname)
        } else {
            let identity = map![
                "KUBEVIRT_INSTANCE_ID"@ => self.instance_id@,
                "KUBEVIRT_HOSTNAME"@ => self.hostname@,
            ];
            match self.instance_type {
                Some(instance_type) => Ok(
                    identity.insert("KUBEVIRT_INSTANCE_TYPE"@, instance_type@),
                ),
                None => Ok(identity),
            }
        }
    }

    /// The hostname, unless it is empty.
    pub open spec fn visible_hostname(self) -> Option<Seq<char>> {
        if self.hostname@.len() == 0 {
            None
        } else {
            Some(self.hostname@)
        }
    }

    /// The listed SSH keys.
    pub open spec fn listed_keys(self) -> Seq<(String, String)> {
        match self.public_keys {
            Some(listed) => listed@,
            None => Seq::empty(),
        }
    }

    /// Whether no key name is listed twice.
    pub open spec fn well_formed(self) -> bool {
        forall|i: int, j: int|
            0 <= i < j < self.listed_keys().len() ==> (#[trigger] self.listed_keys()[i]).0@ != (
            #[trigger] self.listed_keys()[j]).0@
    }

    /// Whether each listed key that is reached may be given to the key parser: those behind a
    /// key that is refused are not reached.
    pub open spec fn keys_can_be_parsed(self) -> bool {
        forall|i: int|
            0 <= i < self.listed_keys().len() && !can_be_parsed(
                (#[trigger] self.listed_keys()[i]).1@,
            ) ==> exists|j: int|
                0 <= j < i && PublicKey::of_text((#[trigger] self.listed_keys()[j]).1@) is Err
    }

    /// Whether each listed key that is reached may be given to the key parser.
    pub fn keys_parse(&self) -> (result: bool)
        ensures
            result == self.keys_can_be_parsed(),
    {
        let listed = match &self.public_keys {
            Some(listed) => listed,
            None => return true,
        };
        let mut i: usize = 0;
        while i < listed.len()
            invariant
                i <= listed@.len(),
                listed@ == self.listed_keys(),
                forall|k: int|
                    0 <= k < i ==> can_be_parsed((#[trigger] self.listed_keys()[k]).1@)
                        && PublicKey::of_text(self.listed_keys()[k].1@) is Ok,
            decreases listed@.len() - i,
        {
            let ghost key = self.listed_keys()[i as int];
            match PublicKey::try_parse(listed[i].1.as_str()) {
                None => {
                    assert(!can_be_parsed(key.1@));
                    return false;
                },
                Some(Err(_)) => {
                    assert(PublicKey::of_text(key.1@) is Err);
                    return true;
                },
                Some(Ok(_)) => {},
            }
            i = i + 1;
        }
        true
    }

    /// The attributes that identify the instance.
    pub(crate) fn read_attributes(&self) -> (result: Result<StringHashMap<String>, Error>)
        ensures
            match result {
                Ok(attributes) => self.attributes() == Ok::<Map<Seq<char>, Seq<char>>, ErrorModel>(
                    attribute_texts(attributes@),
                ),
                Err(error) => self.attributes() == Err::<Map<Seq<char>, Seq<char>>, ErrorModel>(
                    error@,
                ),
            },
    {
        if self.instance_id.as_str().is_empty() {
            return Err(Error::EmptyInstanceId);
        }
        if self.hostname.as_str().is_empty() {
            return Err(Error::EmptyHostname);
        }
        let mut attributes = StringHashMap::new();
        attributes.insert("KUBEVIRT_INSTANCE_ID".to_owned(), self.instance_id.clone());
        attributes.insert("KUBEVIRT_HOSTNAME".to_owned(), self.hostname.clone());
        if let Some(instance_type) = &self.instance_type {
            attributes.insert("KUBEVIRT_INSTANCE_TYPE".to_owned(), instance_type.clone());
        }
        assert(attribute_texts(attributes@) =~= self.attributes()->Ok_0);
        Ok(attributes)
    }

    /// The hostname, unless it is empty.
    pub(crate) fn read_hostname(&self) -> (result: Option<String>)
        ensures
            result.deep_view() == self.visible_hostname(),
    {
        if self.hostname.as_str().is_empty() {
            None
        } else {
            Some(self.hostname.clone())
        }
    }

    /// The listed SSH keys.
    pub(crate) fn read_keys(&self) -> (result: Result<Vec<PublicKey>, Error>)
        requires
            self.keys_can_be_parsed(),
        ensures
            error::outcome(result) == keys_of(self.listed_keys()),
    {
        let mut keys: Vec<PublicKey> = Vec::new();
        assert(keys.deep_view() =~= Seq::<PublicKeyModel>::empty());
        let listed = match &self.public_keys {
            Some(listed) => listed,
            None => return Ok(keys),
        };
        let ghost results = listed@.map_values(
            |entry: (String, String)| PublicKey::of_text(entry.1@),
        );
        let mut i: usize = 0;
        while i < listed.len()
            invariant
                i <= listed@.len(),
                listed@ == self.listed_keys(),
                self.keys_can_be_parsed(),
                results == listed@.map_values(
                    |entry: (String, String)| PublicKey::of_text(entry.1@),
                ),
                keys_of(listed@) == error::collected(results),
                error::collected(results.take(i as int)) == Ok::<Seq<PublicKeyModel>, ErrorModel>(
                    keys.deep_view(),
                ),
                forall|k: int|
                    0 <= k < i ==> PublicKey::of_text((#[trigger] self.listed_keys()[k]).1@) is Ok,
            decreases listed@.len() - i,
        {
            proof {
                error::collected_step(results, i as int);
                if results[i as int] is Err {
                    error::collected_refusal(results, i + 1);
                }
                assert(can_be_parsed(self.listed_keys()[i as int].1@));
            }
            let ghost before = keys.deep_view();
            let key = PublicKey::parse(listed[i].1.as_str())?;
            keys.push(key);
            assert(keys.deep_view() =~= before.push(key@));
            i = i + 1;
        }
        assert(results.take(i as int) =~= results);
        Ok(keys)
    }
}

} // verus!

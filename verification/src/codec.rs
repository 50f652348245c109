//! Stateless codec for the line-based game protocol.
//!
//! A frame is one line of text, fields separated by `|`, the first field
//! being the tag. [`decode`] turns one line into a [`Message`] or rejects it
//! with a [`ProtocolError`]; [`encode_join`] and [`encode_move`] build the
//! two outbound frames.

use vstd::prelude::*;
use vstd::string::StrSliceExecFns;
use vstd::string::StringExecFns;

verus! {

/// Whether `c` is an ASCII decimal digit.
pub open spec fn is_digit(c: char) -> bool {
    '0' <= c && c <= '9'
}

/// The numeric value of the digit `c`.
pub open spec fn digit_value(c: char) -> int {
    c as int - '0' as int
}

/// Whether `s` is a non-empty run of decimal digits: the only shape a
/// numeric protocol field may have.
pub open spec fn is_number(s: Seq<char>) -> bool {
    s.len() > 0 && forall|i: int| 0 <= i < s.len() ==> is_digit(#[trigger] s[i])
}

/// The value of `s` read as a decimal numeral, most significant digit first.
pub open spec fn number_value(s: Seq<char>) -> int
    decreases s.len(),
{
    if s.len() == 0 {
        0
    } else {
        number_value(s.drop_last()) * 10 + digit_value(s.last())
    }
}

/// Whether `s` decodes as a numeric field: a digit run whose value fits the
/// machine's word size.
pub open spec fn field_fits(s: Seq<char>) -> bool {
    is_number(s) && number_value(s) <= usize::MAX as int
}

proof fn lemma_number_value_nonneg(s: Seq<char>)
    requires
        forall|i: int| 0 <= i < s.len() ==> is_digit(#[trigger] s[i]),
    ensures
        number_value(s) >= 0,
    decreases s.len(),
{
    if s.len() > 0 {
        lemma_number_value_nonneg(s.drop_last());
    }
}

/// Reading more digits never shrinks the value of a numeral.
proof fn lemma_number_value_prefix_le(s: Seq<char>, k: int)
    requires
        0 <= k <= s.len(),
        forall|i: int| 0 <= i < s.len() ==> is_digit(#[trigger] s[i]),
    ensures
        number_value(s.take(k)) <= number_value(s),
    decreases s.len() - k,
{
    if k < s.len() {
        assert(s.take(k + 1).drop_last() =~= s.take(k));
        assert(s.take(k + 1).last() == s[k]);
        lemma_number_value_nonneg(s.take(k));
        lemma_number_value_prefix_le(s, k + 1);
    } else {
        assert(s.take(k) =~= s);
    }
}

/// Parses one numeric protocol field. Returns the value exactly when the
/// field is a non-empty digit run whose value fits in `usize`.
pub fn parse_field(s: &str) -> (r: Option<usize>)
    ensures
        r is Some <==> field_fits(s@),
        r is Some ==> r->0 as int == number_value(s@),
{
    let n = s.unicode_len();
    if n == 0 {
        return None;
    }
    let mut val: usize = 0;
    let mut i: usize = 0;
    while i < n
        invariant
            0 < n == s@.len(),
            i <= n,
            forall|j: int| 0 <= j < i ==> is_digit(#[trigger] s@[j]),
            val as int == number_value(s@.take(i as int)),
        decreases n - i,
    {
        let c = s.get_char(i);
        if c < '0' || c > '9' {
            return None;
        }
        let dd = (c as u32 - 48) as usize;
        assert(dd as int == digit_value(s@[i as int]));
        let stepped = match val.checked_mul(10) {
            Some(m) => m.checked_add(dd),
            None => None,
        };
        proof {
            assert(s@.take(i + 1).drop_last() =~= s@.take(i as int));
            assert(s@.take(i + 1).last() == s@[i as int]);
        }
        match stepped {
            Some(next) => {
                val = next;
            }
            None => {
                proof {
                    // The numeral's value already exceeds what a field may
                    // hold, and appending digits cannot bring it back down.
                    if is_number(s@) {
                        lemma_number_value_prefix_le(s@, i + 1);
                    }
                }
                return None;
            }
        }
        i += 1;
    }
    proof {
        assert(s@.take(n as int) =~= s@);
    }
    Some(val)
}

/// One of the four moves a snake can make, with protocol tokens
/// `up`, `right`, `down`, `left`.
#[derive(Clone, Copy, Debug, PartialEq, Eq, Structural)]
pub enum Direction {
    Up,
    Right,
    Down,
    Left,
}

impl Direction {
    /// The lower-case protocol token for this direction.
    pub open spec fn spec_token(self) -> Seq<char> {
        match self {
            Direction::Up => "up"@,
            Direction::Right => "right"@,
            Direction::Down => "down"@,
            Direction::Left => "left"@,
        }
    }

    /// The lower-case protocol token for this direction.
    pub fn as_str(&self) -> (r: &'static str)
        ensures
            r@ == self.spec_token(),
    {
        match self {
            Direction::Up => "up",
            Direction::Right => "right",
            Direction::Down => "down",
            Direction::Left => "left",
        }
    }
}

/// The fields of a frame: `line` split on every `|`, keeping empty pieces,
/// as the wire protocol defines them. A line with no separator is a single
/// field, so the result is never empty.
pub open spec fn spec_fields(line: Seq<char>) -> Seq<Seq<char>>
    decreases line.len(),
{
    if line.len() == 0 {
        seq![Seq::<char>::empty()]
    } else if line[0] == '|' {
        seq![Seq::<char>::empty()] + spec_fields(line.drop_first())
    } else {
        let rest = spec_fields(line.drop_first());
        seq![seq![line[0]] + rest[0]] + rest.drop_first()
    }
}

proof fn lemma_spec_fields_len(line: Seq<char>)
    ensures
        spec_fields(line).len() >= 1,
    decreases line.len(),
{
    if line.len() > 0 {
        lemma_spec_fields_len(line.drop_first());
    }
}

/// A line without separators is one single field.
proof fn lemma_spec_fields_no_bar(line: Seq<char>)
    requires
        forall|j: int| 0 <= j < line.len() ==> line[j] != '|',
    ensures
        spec_fields(line) == seq![line],
    decreases line.len(),
{
    if line.len() == 0 {
        assert(spec_fields(line) =~~= seq![line]);
    } else {
        lemma_spec_fields_no_bar(line.drop_first());
        assert(spec_fields(line) =~~= seq![line]);
    }
}

/// Splitting at the first separator: the piece before it is the first
/// field, and the rest of the line contributes the remaining fields.
proof fn lemma_spec_fields_first_bar(line: Seq<char>, i: int)
    requires
        0 <= i < line.len(),
        line[i] == '|',
        forall|j: int| 0 <= j < i ==> line[j] != '|',
    ensures
        spec_fields(line) == seq![line.take(i)] + spec_fields(
            line.subrange(i + 1, line.len() as int),
        ),
    decreases i,
{
    if i == 0 {
        assert(line.drop_first() =~= line.subrange(1, line.len() as int));
        assert(spec_fields(line) =~~= seq![line.take(0)] + spec_fields(
            line.subrange(1, line.len() as int),
        ));
    } else {
        let rest = line.drop_first();
        lemma_spec_fields_first_bar(rest, i - 1);
        lemma_spec_fields_len(rest.subrange(i, rest.len() as int));
        assert(rest.subrange(i, rest.len() as int) =~= line.subrange(i + 1, line.len() as int));
        assert(seq![line[0]] + rest.take(i - 1) =~= line.take(i));
        assert(spec_fields(line) =~~= seq![line.take(i)] + spec_fields(
            line.subrange(i + 1, line.len() as int),
        ));
    }
}

/// Splits one line into its `|`-separated fields.
pub fn split_fields(s: &str) -> (fields: Vec<String>)
    ensures
        fields@.map_values(|f: String| f@) == spec_fields(s@),
        fields@.len() >= 1,
    decreases s@.len(),
{
    let n = s.unicode_len();
    let mut i: usize = 0;
    while i < n && s.get_char(i) != '|'
        invariant
            i <= n,
            n == s@.len(),
            forall|j: int| 0 <= j < i ==> s@[j] != '|',
        decreases n - i,
    {
        i += 1;
    }
    if i == n {
        proof {
            lemma_spec_fields_no_bar(s@);
        }
        let mut fields: Vec<String> = Vec::new();
        fields.push(String::from_str(s));
        proof {
            assert(fields@.map_values(|f: String| f@) =~~= spec_fields(s@));
        }
        fields
    } else {
        let head = s.substring_char(0, i);
        let tail = s.substring_char(i + 1, n);
        proof {
            lemma_spec_fields_first_bar(s@, i as int);
        }
        let mut fields = split_fields(tail);
        fields.insert(0, String::from_str(head));
        proof {
            assert(head@ =~= s@.take(i as int));
            assert(fields@.map_values(|f: String| f@) =~~= spec_fields(s@));
        }
        fields
    }
}

/// Whether `c` is one of the whitespace characters stripped from the ends
/// of a received line (the frame delimiter and incidental padding).
pub open spec fn is_space(c: char) -> bool {
    c == ' ' || c == '\t' || c == '\r' || c == '\n'
}

/// `s` with leading whitespace removed.
pub open spec fn trim_front(s: Seq<char>) -> Seq<char>
    decreases s.len(),
{
    if s.len() > 0 && is_space(s[0]) {
        trim_front(s.drop_first())
    } else {
        s
    }
}

/// `s` with trailing whitespace removed.
pub open spec fn trim_back(s: Seq<char>) -> Seq<char>
    decreases s.len(),
{
    if s.len() > 0 && is_space(s.last()) {
        trim_back(s.drop_last())
    } else {
        s
    }
}

/// `s` with whitespace removed from both ends.
pub open spec fn spec_trim(s: Seq<char>) -> Seq<char> {
    trim_back(trim_front(s))
}

proof fn lemma_trim_front_skip(s: Seq<char>, b: int)
    requires
        0 <= b <= s.len(),
        forall|j: int| 0 <= j < b ==> is_space(#[trigger] s[j]),
        b < s.len() ==> !is_space(s[b]),
    ensures
        trim_front(s) == s.skip(b),
    decreases b,
{
    if b == 0 {
        assert(s.skip(0) =~= s);
    } else {
        lemma_trim_front_skip(s.drop_first(), b - 1);
        assert(s.drop_first().skip(b - 1) =~= s.skip(b));
    }
}

proof fn lemma_trim_back_take(s: Seq<char>, e: int)
    requires
        0 <= e <= s.len(),
        forall|j: int| e <= j < s.len() ==> is_space(#[trigger] s[j]),
        e > 0 ==> !is_space(s[e - 1]),
    ensures
        trim_back(s) == s.take(e),
    decreases s.len() - e,
{
    if e == s.len() {
        assert(s.take(e) =~= s);
    } else {
        lemma_trim_back_take(s.drop_last(), e);
    }
}

/// Strips whitespace (spaces, tabs, and the line terminator) from both ends
/// of a received line.
pub fn trim_line(s: &str) -> (r: &str)
    ensures
        r@ == spec_trim(s@),
{
    let n = s.unicode_len();
    let mut b: usize = 0;
    while b < n && is_space_char(s.get_char(b))
        invariant
            b <= n,
            n == s@.len(),
            forall|j: int| 0 <= j < b ==> is_space(#[trigger] s@[j]),
        decreases n - b,
    {
        b += 1;
    }
    let mut e: usize = n;
    while e > b && is_space_char(s.get_char(e - 1))
        invariant
            b <= e <= n,
            n == s@.len(),
            forall|j: int| e <= j < n ==> is_space(#[trigger] s@[j]),
        decreases e,
    {
        e -= 1;
    }
    proof {
        lemma_trim_front_skip(s@, b as int);
        lemma_trim_back_take(s@.skip(b as int), e - b);
        assert(s@.skip(b as int).take(e - b) =~= s@.subrange(b as int, e as int));
    }
    s.substring_char(b, e)
}

fn is_space_char(c: char) -> (r: bool)
    ensures
        r == is_space(c),
{
    c == ' ' || c == '\t' || c == '\r' || c == '\n'
}

/// One inbound protocol frame, decoded.
#[derive(Debug, PartialEq, Eq)]
pub enum Message {
    /// `motd|<text>`: the server greets; a `join` answer is due.
    Motd(String),
    /// `error|<text>`: the server reports a failure.
    Error(String),
    /// `game|<width>|<height>|<player_id>`: a round begins on a
    /// `width` x `height` board, this agent playing as `player_id`.
    Game { width: usize, height: usize, player_id: usize },
    /// `pos|<player_id>|<x>|<y>`: the cell a player currently occupies.
    Pos { player_id: usize, x: usize, y: usize },
    /// `tick`: one simulation step ends; a move decision is due.
    Tick,
    /// `die|<player_id>*`: zero or more players were eliminated.
    Die(Vec<usize>),
    /// `message|<player_id>|<text>`: player chatter, ignored by game logic.
    Chat { player_id: usize, text: String },
    /// `win|<wins>|<losses>`: the round ended in this agent's favour.
    Win { wins: usize, losses: usize },
    /// `lose|<wins>|<losses>`: the round ended against this agent.
    Lose { wins: usize, losses: usize },
}

/// The mathematical value of a [`Message`].
pub enum MessageV {
    Motd(Seq<char>),
    Error(Seq<char>),
    Game { width: int, height: int, player_id: int },
    Pos { player_id: int, x: int, y: int },
    Tick,
    Die(Seq<int>),
    Chat { player_id: int, text: Seq<char> },
    Win { wins: int, losses: int },
    Lose { wins: int, losses: int },
}

impl View for Message {
    type V = MessageV;

    open spec fn view(&self) -> MessageV {
        match self {
            Message::Motd(text) => MessageV::Motd(text@),
            Message::Error(text) => MessageV::Error(text@),
            Message::Game { width, height, player_id } => MessageV::Game {
                width: *width as int,
                height: *height as int,
                player_id: *player_id as int,
            },
            Message::Pos { player_id, x, y } => MessageV::Pos {
                player_id: *player_id as int,
                x: *x as int,
                y: *y as int,
            },
            Message::Tick => MessageV::Tick,
            Message::Die(ids) => MessageV::Die(ids@.map_values(|id: usize| id as int)),
            Message::Chat { player_id, text } => MessageV::Chat {
                player_id: *player_id as int,
                text: text@,
            },
            Message::Win { wins, losses } => MessageV::Win {
                wins: *wins as int,
                losses: *losses as int,
            },
            Message::Lose { wins, losses } => MessageV::Lose {
                wins: *wins as int,
                losses: *losses as int,
            },
        }
    }
}

/// Why a line was rejected by the codec.
#[derive(Debug, PartialEq, Eq)]
pub enum ProtocolError {
    /// No grammar rule matches the line's tag and arity; holds the
    /// offending line.
    UnknownFrame(String),
    /// A field of an otherwise well-formed frame is not a valid
    /// non-negative integer; holds the frame's tag and the index of the
    /// field within it, the tag itself counting as field zero.
    FieldParse(String, usize),
}

/// The mathematical value of a [`ProtocolError`].
pub enum ProtocolErrorV {
    UnknownFrame(Seq<char>),
    FieldParse(Seq<char>, int),
}

impl View for ProtocolError {
    type V = ProtocolErrorV;

    open spec fn view(&self) -> ProtocolErrorV {
        match self {
            ProtocolError::UnknownFrame(line) => ProtocolErrorV::UnknownFrame(line@),
            ProtocolError::FieldParse(tag, index) => ProtocolErrorV::FieldParse(
                tag@,
                *index as int,
            ),
        }
    }
}

/// Whether every field of `fields` from index `from` on decodes as a number.
pub open spec fn all_fields_fit(fields: Seq<Seq<char>>, from: int) -> bool {
    forall|i: int| from <= i < fields.len() ==> field_fits(#[trigger] fields[i])
}

/// The index of the first field from `from` on that does not decode as a
/// number (`fields.len()` if all do).
pub open spec fn first_bad_field(fields: Seq<Seq<char>>, from: int) -> int
    decreases fields.len() - from,
{
    if from < 0 || from >= fields.len() {
        fields.len() as int
    } else if !field_fits(fields[from]) {
        from
    } else {
        first_bad_field(fields, from + 1)
    }
}

proof fn lemma_first_bad_field(fields: Seq<Seq<char>>, from: int, k: int)
    requires
        0 <= from <= k < fields.len(),
        forall|j: int| from <= j < k ==> field_fits(#[trigger] fields[j]),
        !field_fits(fields[k]),
    ensures
        first_bad_field(fields, from) == k,
    decreases k - from,
{
    if from < k {
        lemma_first_bad_field(fields, from + 1, k);
    }
}

/// What one line of the inbound protocol means. The grammar is fixed: the
/// first field is the tag, the arity is tag-specific, and only `die` takes
/// a variable number of (numeric) trailing fields. A line either fully
/// matches one rule or is rejected.
pub open spec fn spec_decode(line: Seq<char>) -> Result<MessageV, ProtocolErrorV> {
    let fields = spec_fields(line);
    let tag = fields[0];
    if tag == "motd"@ && fields.len() == 2 {
        Ok(MessageV::Motd(fields[1]))
    } else if tag == "error"@ && fields.len() == 2 {
        Ok(MessageV::Error(fields[1]))
    } else if tag == "game"@ && fields.len() == 4 {
        if all_fields_fit(fields, 1) {
            Ok(MessageV::Game {
                width: number_value(fields[1]),
                height: number_value(fields[2]),
                player_id: number_value(fields[3]),
            })
        } else {
            Err(ProtocolErrorV::FieldParse(tag, first_bad_field(fields, 1)))
        }
    } else if tag == "pos"@ && fields.len() == 4 {
        if all_fields_fit(fields, 1) {
            Ok(MessageV::Pos {
                player_id: number_value(fields[1]),
                x: number_value(fields[2]),
                y: number_value(fields[3]),
            })
        } else {
            Err(ProtocolErrorV::FieldParse(tag, first_bad_field(fields, 1)))
        }
    } else if tag == "tick"@ && fields.len() == 1 {
        Ok(MessageV::Tick)
    } else if tag == "die"@ {
        if all_fields_fit(fields, 1) {
            Ok(MessageV::Die(
                fields.subrange(1, fields.len() as int).map_values(|f: Seq<char>| number_value(f)),
            ))
        } else {
            Err(ProtocolErrorV::FieldParse(tag, first_bad_field(fields, 1)))
        }
    } else if tag == "message"@ && fields.len() == 3 {
        if field_fits(fields[1]) {
            Ok(MessageV::Chat { player_id: number_value(fields[1]), text: fields[2] })
        } else {
            Err(ProtocolErrorV::FieldParse(tag, 1))
        }
    } else if tag == "win"@ && fields.len() == 3 {
        if all_fields_fit(fields, 1) {
            Ok(MessageV::Win { wins: number_value(fields[1]), losses: number_value(fields[2]) })
        } else {
            Err(ProtocolErrorV::FieldParse(tag, first_bad_field(fields, 1)))
        }
    } else if tag == "lose"@ && fields.len() == 3 {
        if all_fields_fit(fields, 1) {
            Ok(MessageV::Lose { wins: number_value(fields[1]), losses: number_value(fields[2]) })
        } else {
            Err(ProtocolErrorV::FieldParse(tag, first_bad_field(fields, 1)))
        }
    } else {
        Err(ProtocolErrorV::UnknownFrame(line))
    }
}

/// Whether two strings hold exactly the same characters.
fn str_eq(a: &str, b: &str) -> (r: bool)
    ensures
        r == (a@ == b@),
{
    let n = a.unicode_len();
    if n != b.unicode_len() {
        return false;
    }
    let mut i: usize = 0;
    while i < n
        invariant
            n == a@.len(),
            n == b@.len(),
            i <= n,
            forall|j: int| 0 <= j < i ==> a@[j] == b@[j],
        decreases n - i,
    {
        if a.get_char(i) != b.get_char(i) {
            return false;
        }
        i += 1;
    }
    proof {
        assert(a@ =~= b@);
    }
    true
}

/// Decodes one line of text (frame delimiter already stripped) into a
/// [`Message`], exactly as [`spec_decode`] reads it.
pub fn decode(line: &str) -> (r: Result<Message, ProtocolError>)
    ensures
        spec_decode(line@) is Ok ==> r is Ok && r->Ok_0@ == spec_decode(line@)->Ok_0,
        spec_decode(line@) is Err ==> r is Err && r->Err_0@ == spec_decode(line@)->Err_0,
{
    let fields = split_fields(line);
    let ghost fv = spec_fields(line@);
    let nf = fields.len();
    let tag = fields[0].as_str();
    if str_eq(tag, "motd") && nf == 2 {
        Ok(Message::Motd(fields[1].clone()))
    } else if str_eq(tag, "error") && nf == 2 {
        Ok(Message::Error(fields[1].clone()))
    } else if str_eq(tag, "game") && nf == 4 {
        let width = match parse_field(fields[1].as_str()) {
            Some(v) => v,
            None => {
                proof {
                    lemma_first_bad_field(fv, 1, 1);
                }
                return Err(ProtocolError::FieldParse(String::from_str("game"), 1));
            }
        };
        let height = match parse_field(fields[2].as_str()) {
            Some(v) => v,
            None => {
                proof {
                    lemma_first_bad_field(fv, 1, 2);
                }
                return Err(ProtocolError::FieldParse(String::from_str("game"), 2));
            }
        };
        let player_id = match parse_field(fields[3].as_str()) {
            Some(v) => v,
            None => {
                proof {
                    lemma_first_bad_field(fv, 1, 3);
                }
                return Err(ProtocolError::FieldParse(String::from_str("game"), 3));
            }
        };
        Ok(Message::Game { width, height, player_id })
    } else if str_eq(tag, "pos") && nf == 4 {
        let player_id = match parse_field(fields[1].as_str()) {
            Some(v) => v,
            None => {
                proof {
                    lemma_first_bad_field(fv, 1, 1);
                }
                return Err(ProtocolError::FieldParse(String::from_str("pos"), 1));
            }
        };
        let x = match parse_field(fields[2].as_str()) {
            Some(v) => v,
            None => {
                proof {
                    lemma_first_bad_field(fv, 1, 2);
                }
                return Err(ProtocolError::FieldParse(String::from_str("pos"), 2));
            }
        };
        let y = match parse_field(fields[3].as_str()) {
            Some(v) => v,
            None => {
                proof {
                    lemma_first_bad_field(fv, 1, 3);
                }
                return Err(ProtocolError::FieldParse(String::from_str("pos"), 3));
            }
        };
        Ok(Message::Pos { player_id, x, y })
    } else if str_eq(tag, "tick") && nf == 1 {
        Ok(Message::Tick)
    } else if str_eq(tag, "die") {
        let mut ids: Vec<usize> = Vec::new();
        let mut i: usize = 1;
        while i < nf
            invariant
                1 <= i <= nf,
                nf == fields@.len(),
                fields@.map_values(|f: String| f@) == fv,
                fv == spec_fields(line@),
                fv[0] == "die"@,
                !(fv[0] == "motd"@ && fv.len() == 2),
                !(fv[0] == "error"@ && fv.len() == 2),
                !(fv[0] == "game"@ && fv.len() == 4),
                !(fv[0] == "pos"@ && fv.len() == 4),
                !(fv[0] == "tick"@ && fv.len() == 1),
                forall|j: int| 1 <= j < i ==> field_fits(#[trigger] fv[j]),
                ids@.len() == i - 1,
                forall|j: int| 0 <= j < ids@.len() ==> #[trigger] ids@[j] as int == number_value(
                    fv[j + 1],
                ),
            decreases nf - i,
        {
            match parse_field(fields[i].as_str()) {
                Some(v) => {
                    ids.push(v);
                }
                None => {
                    proof {
                        assert(fv[i as int] == fields@.map_values(|f: String| f@)[i as int]);
                        assert(!all_fields_fit(fv, 1));
                        lemma_first_bad_field(fv, 1, i as int);
                    }
                    return Err(ProtocolError::FieldParse(String::from_str("die"), i));
                }
            }
            i += 1;
        }
        proof {
            assert(ids@.map_values(|id: usize| id as int) =~= fv.subrange(
                1,
                fv.len() as int,
            ).map_values(|f: Seq<char>| number_value(f)));
        }
        Ok(Message::Die(ids))
    } else if str_eq(tag, "message") && nf == 3 {
        let player_id = match parse_field(fields[1].as_str()) {
            Some(v) => v,
            None => {
                return Err(ProtocolError::FieldParse(String::from_str("message"), 1));
            }
        };
        Ok(Message::Chat { player_id, text: fields[2].clone() })
    } else if str_eq(tag, "win") && nf == 3 {
        let wins = match parse_field(fields[1].as_str()) {
            Some(v) => v,
            None => {
                proof {
                    lemma_first_bad_field(fv, 1, 1);
                }
                return Err(ProtocolError::FieldParse(String::from_str("win"), 1));
            }
        };
        let losses = match parse_field(fields[2].as_str()) {
            Some(v) => v,
            None => {
                proof {
                    lemma_first_bad_field(fv, 1, 2);
                }
                return Err(ProtocolError::FieldParse(String::from_str("win"), 2));
            }
        };
        Ok(Message::Win { wins, losses })
    } else if str_eq(tag, "lose") && nf == 3 {
        let wins = match parse_field(fields[1].as_str()) {
            Some(v) => v,
            None => {
                proof {
                    lemma_first_bad_field(fv, 1, 1);
                }
                return Err(ProtocolError::FieldParse(String::from_str("lose"), 1));
            }
        };
        let losses = match parse_field(fields[2].as_str()) {
            Some(v) => v,
            None => {
                proof {
                    lemma_first_bad_field(fv, 1, 2);
                }
                return Err(ProtocolError::FieldParse(String::from_str("lose"), 2));
            }
        };
        Ok(Message::Lose { wins, losses })
    } else {
        Err(ProtocolError::UnknownFrame(String::from_str(line)))
    }
}

impl Message {
    /// Decodes one received line, first stripping surrounding whitespace:
    /// lines arrive from the stream with their terminator still attached.
    pub fn from(s: String) -> (r: Result<Message, ProtocolError>)
        ensures
            spec_decode(spec_trim(s@)) is Ok ==> r is Ok && r->Ok_0@ == spec_decode(
                spec_trim(s@),
            )->Ok_0,
            spec_decode(spec_trim(s@)) is Err ==> r is Err && r->Err_0@ == spec_decode(
                spec_trim(s@),
            )->Err_0,
    {
        decode(trim_line(s.as_str()))
    }
}

/// Builds the outbound `join|<name>|<token>` frame (no line terminator).
pub fn encode_join(name: &str, token: &str) -> (line: String)
    ensures
        line@ == "join|"@ + name@ + "|"@ + token@,
{
    let mut line = String::from_str("join|");
    line.append(name);
    line.append("|");
    line.append(token);
    line
}

/// Builds the outbound `move|<direction>` frame (no line terminator).
pub fn encode_move(dir: Direction) -> (line: String)
    ensures
        line@ == "move|"@ + dir.spec_token(),
{
    let mut line = String::from_str("move|");
    line.append(dir.as_str());
    line
}

} // verus!

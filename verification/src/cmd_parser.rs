//! The parser for an option of the form `value,key=value,key=value`.

use vstd::prelude::*;
use vstd::string::StringExecFns;
use vstd::string::StrSliceExecFns;
use crate::errors::{ConfigError, ErrorModel};
use crate::text::{
    chars_of, str_eq, find_in, parse_decimal, find_char, split, split_from, decimal,
    lemma_find_char,
};

verus! {

/// One field an option may have, and the value given for it, if any.
pub struct FieldModel {
    pub key: Seq<char>,
    pub value: Option<Seq<char>>,
}

/// The state of a parser: the option's name and its fields.
pub struct ParserModel {
    pub name: Seq<char>,
    pub fields: Seq<FieldModel>,
}

/// The position of the first field from `from` on with the key `key`, or
/// the number of fields if there is none.
pub open spec fn find_field(fields: Seq<FieldModel>, key: Seq<char>, from: int) -> int
    decreases fields.len() - from,
{
    if from < 0 || from >= fields.len() {
        fields.len() as int
    } else if fields[from].key == key {
        from
    } else {
        find_field(fields, key, from + 1)
    }
}

/// What `find_field` returns.
pub proof fn lemma_find_field(fields: Seq<FieldModel>, key: Seq<char>, from: int)
    requires
        0 <= from <= fields.len(),
    ensures
        from <= find_field(fields, key, from) <= fields.len(),
        find_field(fields, key, from) < fields.len() ==> fields[find_field(fields, key, from)].key
            == key,
    decreases fields.len() - from,
{
    if from < fields.len() && fields[from].key != key {
        lemma_find_field(fields, key, from + 1);
    }
}

/// Whether an item begins or ends with `=`.
pub open spec fn malformed(item: Seq<char>) -> bool {
    item.len() > 0 && (item[0] == '=' || item.last() == '=')
}

/// The text of an item before its first `=`; the whole item if it has none.
pub open spec fn item_head(item: Seq<char>) -> Seq<char> {
    item.take(find_char(item, '=', 0))
}

/// The key an item gives a value to: the text before its first `=`. An
/// item without `=` is the value of the unnamed field if it comes first,
/// and a key without value otherwise.
pub open spec fn item_key(item: Seq<char>, first: bool) -> Seq<char> {
    if find_char(item, '=', 0) < item.len() || !first {
        item_head(item)
    } else {
        Seq::empty()
    }
}

/// The value an item gives: the text behind its first `=`.
pub open spec fn item_value(item: Seq<char>, first: bool) -> Seq<char> {
    let at = find_char(item, '=', 0);
    if at < item.len() {
        item.skip(at + 1)
    } else if first {
        item
    } else {
        Seq::empty()
    }
}

impl ParserModel {
    /// The parser with `key` as a field without value.
    pub open spec fn declare(self, key: Seq<char>) -> ParserModel {
        let at = find_field(self.fields, key, 0);
        if at < self.fields.len() {
            ParserModel {
                name: self.name,
                fields: self.fields.update(at, FieldModel { key, value: None }),
            }
        } else {
            ParserModel { name: self.name, fields: self.fields.push(FieldModel { key, value: None }) }
        }
    }

    /// The value given for `key`, if the option has the field and it was
    /// given one.
    pub open spec fn value(self, key: Seq<char>) -> Option<Seq<char>> {
        let at = find_field(self.fields, key, 0);
        if at < self.fields.len() {
            self.fields[at].value
        } else {
            None
        }
    }

    /// The parser after one item: the item's value stored under its key.
    /// Refused are a malformed item, a key the option does not have, and a
    /// key that already has a value.
    pub open spec fn accept(self, item: Seq<char>, first: bool) -> Result<ParserModel, ErrorModel> {
        let key = item_key(item, first);
        let at = find_field(self.fields, key, 0);
        if malformed(item) {
            Err(ErrorModel::InvalidParam(item, self.name))
        } else if at >= self.fields.len() {
            Err(ErrorModel::InvalidParam(item_head(item), self.name))
        } else if self.fields[at].value is Some {
            Err(ErrorModel::FieldRepeat(self.name, key))
        } else {
            Ok(
                ParserModel {
                    name: self.name,
                    fields: self.fields.update(
                        at,
                        FieldModel { key: self.fields[at].key, value: Some(item_value(item, first)) },
                    ),
                },
            )
        }
    }

    /// The parser after the items from position `from` on, or the error of
    /// the first item refused.
    pub open spec fn accept_all(self, items: Seq<Seq<char>>, from: int) -> Result<
        ParserModel,
        ErrorModel,
    >
        decreases items.len() - from,
    {
        if from < 0 || from >= items.len() {
            Ok(self)
        } else {
            match self.accept(items[from], from == 0) {
                Ok(next) => next.accept_all(items, from + 1),
                Err(e) => Err(e),
            }
        }
    }

    /// The parser after the option text `cmd`: its items are the pieces
    /// between commas. A text that begins or ends with a comma is refused.
    pub open spec fn parse(self, cmd: Seq<char>) -> Result<ParserModel, ErrorModel> {
        if cmd.len() > 0 && (cmd[0] == ',' || cmd.last() == ',') {
            Err(ErrorModel::InvalidParam(cmd, self.name))
        } else {
            self.accept_all(split(cmd, ','), 0)
        }
    }

    /// The name a field goes by in an error: its key, or the option's name
    /// for the unnamed field.
    pub open spec fn label(self, key: Seq<char>) -> Seq<char> {
        if key.len() == 0 {
            self.name
        } else {
            key
        }
    }

    /// The number given for `key`, if any; an error if the value is not a
    /// decimal number of at most `max`.
    pub open spec fn number(self, key: Seq<char>, max: u64) -> Result<Option<u64>, ErrorModel> {
        match self.value(key) {
            None => Ok(None),
            Some(raw) => match decimal(raw, max) {
                Some(n) => Ok(Some(n)),
                None => Err(ErrorModel::ConvertValueFailed(self.label(key), raw)),
            },
        }
    }

    /// The switch given for `key`, if any; an error if the value is not a
    /// switch.
    pub open spec fn switch(self, key: Seq<char>) -> Result<Option<bool>, ErrorModel> {
        match self.value(key) {
            None => Ok(None),
            Some(raw) => match switch_value(raw) {
                Some(b) => Ok(Some(b)),
                None => Err(ErrorModel::ConvertValueFailed(self.label(key), raw)),
            },
        }
    }
}

/// What a switch text means: `true`, `on` and `yes` switch on; `false`,
/// `off` and `no` switch off.
pub open spec fn switch_value(s: Seq<char>) -> Option<bool> {
    if s == "true"@ || s == "on"@ || s == "yes"@ {
        Some(true)
    } else if s == "false"@ || s == "off"@ || s == "no"@ {
        Some(false)
    } else {
        None
    }
}

/// Reads a switch text.
pub fn parse_switch(s: &str) -> (r: Option<bool>)
    ensures
        r == switch_value(s@),
{
    if str_eq(s, "true") || str_eq(s, "on") || str_eq(s, "yes") {
        Some(true)
    } else if str_eq(s, "false") || str_eq(s, "off") || str_eq(s, "no") {
        Some(false)
    } else {
        None
    }
}

/// One field of an option being parsed.
pub struct Field {
    key: String,
    value: Option<String>,
}

impl View for Field {
    type V = FieldModel;

    closed spec fn view(&self) -> FieldModel {
        FieldModel {
            key: self.key@,
            value: match self.value {
                Some(v) => Some(v@),
                None => None,
            },
        }
    }
}

/// The parser of one option.
pub struct CmdParser {
    name: String,
    params: Vec<Field>,
}

/// The models of a list of fields, in order.
pub open spec fn fields_view(fields: Seq<Field>) -> Seq<FieldModel> {
    Seq::new(fields.len(), |i: int| fields[i]@)
}

impl View for CmdParser {
    type V = ParserModel;

    closed spec fn view(&self) -> ParserModel {
        ParserModel { name: self.name@, fields: fields_view(self.params@) }
    }
}

/// The first `=` of a piece of a text is the first `=` of the text from the
/// piece's start on, if that is inside the piece.
pub proof fn lemma_find_in_piece(s: Seq<char>, c: char, from: int, to: int, at: int)
    requires
        0 <= from <= at <= to <= s.len(),
    ensures
        find_char(s.subrange(from, to), c, at - from) + from == if find_char(s, c, at) < to {
            find_char(s, c, at)
        } else {
            to
        },
    decreases to - at,
{
    let piece = s.subrange(from, to);
    if at < to {
        assert(piece[at - from] == s[at]);
        if s[at] != c {
            lemma_find_in_piece(s, c, from, to, at + 1);
        }
    } else {
        lemma_find_char(s, c, at);
    }
}

impl CmdParser {
    /// A parser for the option `name`, without fields.
    pub fn new(name: &str) -> (r: CmdParser)
        ensures
            r@ == (ParserModel { name: name@, fields: Seq::empty() }),
    {
        let r = CmdParser { name: String::from_str(name), params: Vec::new() };
        assert(r@.fields =~= Seq::empty());
        r
    }

    /// The position of the field `key`, or the number of fields.
    fn position(&self, key: &str) -> (r: usize)
        ensures
            r == find_field(self@.fields, key@, 0),
            r <= self.params@.len(),
            self.params@.len() == self@.fields.len(),
    {
        let n: usize = self.params.len();
        let mut i: usize = 0;
        while i < n && !str_eq(self.params[i].key.as_str(), key)
            invariant
                i <= n,
                n == self.params@.len(),
                find_field(self@.fields, key@, 0) == find_field(self@.fields, key@, i as int),
            decreases n - i,
        {
            i = i + 1;
        }
        proof {
            lemma_find_field(self@.fields, key@, 0);
        }
        i
    }

    /// Declares `field` as a field of the option, without value.
    pub fn push(self, field: &str) -> (r: CmdParser)
        ensures
            r@ == self@.declare(field@),
    {
        let at: usize = self.position(field);
        proof {
            lemma_find_field(self@.fields, field@, 0);
        }
        let mut parser = self;
        if at < parser.params.len() {
            parser.params[at].value = None;
            assert(parser@.fields =~= self@.declare(field@).fields);
        } else {
            parser.params.push(Field { key: String::from_str(field), value: None });
            assert(parser@.fields =~= self@.declare(field@).fields);
        }
        parser
    }

    /// Takes in the item of `cmd` that runs from character `from` to `to`.
    fn accept(self, cmd: &str, chars: &Vec<char>, from: usize, to: usize, first: bool) -> (r: Result<
        CmdParser,
        ConfigError,
    >)
        requires
            chars@ == cmd@,
            from <= to <= chars.len(),
        ensures
            match r {
                Ok(p) => self@.accept(cmd@.subrange(from as int, to as int), first) == Ok::<
                    ParserModel,
                    ErrorModel,
                >(p@),
                Err(e) => self@.accept(cmd@.subrange(from as int, to as int), first) == Err::<
                    ParserModel,
                    ErrorModel,
                >(e@),
            },
    {
        let ghost item = cmd@.subrange(from as int, to as int);
        let piece: &str = cmd.substring_char(from, to);
        if from < to && (chars[from] == '=' || chars[to - 1] == '=') {
            return Err(ConfigError::InvalidParam(String::from_str(piece), self.name.clone()));
        }
        let eq: usize = find_in(chars, '=', from);
        proof {
            lemma_find_in_piece(cmd@, '=', from as int, to as int, from as int);
        }
        let cut: usize = if eq < to {
            eq
        } else {
            to
        };
        assert(cut - from == find_char(item, '=', 0));
        let head: &str = cmd.substring_char(from, cut);
        assert(head@ =~= item_head(item));
        let key: &str = if eq < to || !first {
            head
        } else {
            ""
        };
        proof {
            reveal_strlit("");
            assert(""@ =~= Seq::<char>::empty());
        }
        assert(key@ == item_key(item, first));
        let value: &str = if eq < to {
            cmd.substring_char(eq + 1, to)
        } else if first {
            piece
        } else {
            ""
        };
        assert(value@ =~= item_value(item, first));
        let at: usize = self.position(key);
        if at >= self.params.len() {
            return Err(ConfigError::InvalidParam(String::from_str(head), self.name.clone()));
        }
        if self.params[at].value.is_some() {
            return Err(ConfigError::FieldRepeat(self.name.clone(), String::from_str(key)));
        }
        let mut parser = self;
        parser.params[at].value = Some(String::from_str(value));
        assert(self@.accept(item, first) matches Ok(m) && parser@.fields =~= m.fields);
        Ok(parser)
    }

    /// Reads the option text `cmd` into the declared fields.
    pub fn parse(self, cmd: &str) -> (r: Result<CmdParser, ConfigError>)
        ensures
            match r {
                Ok(p) => self@.parse(cmd@) == Ok::<ParserModel, ErrorModel>(p@),
                Err(e) => self@.parse(cmd@) == Err::<ParserModel, ErrorModel>(e@),
            },
    {
        let chars: Vec<char> = chars_of(cmd);
        let n: usize = chars.len();
        if n > 0 && (chars[0] == ',' || chars[n - 1] == ',') {
            return Err(ConfigError::InvalidParam(String::from_str(cmd), self.name.clone()));
        }
        let ghost items = split(cmd@, ',');
        let ghost start = self@;
        let ghost mut done: int = 0;
        let mut parser = self;
        let mut pos: usize = 0;
        let mut first: bool = true;
        loop
            invariant
                chars@ == cmd@,
                n == chars.len(),
                pos <= n,
                items == split(cmd@, ','),
                0 <= done < items.len(),
                first == (done == 0),
                items.skip(done) == split_from(cmd@, ',', pos as int),
                parser@.accept_all(items, done) == start.accept_all(items, 0),
                start == self@,
                start.parse(cmd@) == start.accept_all(items, 0),
            decreases n - pos,
        {
            let end: usize = find_in(&chars, ',', pos);
            let ghost before = parser@;
            proof {
                let rest = split_from(cmd@, ',', pos as int);
                assert(items[done] == rest[0]);
                assert(items[done] == cmd@.subrange(pos as int, end as int));
                if end < n {
                    assert(rest.skip(1) =~= split_from(cmd@, ',', end + 1));
                    assert(items.skip(done + 1) =~= items.skip(done).skip(1));
                    assert(split_from(cmd@, ',', end + 1).len() > 0);
                    assert(items.skip(done + 1).len() == items.len() - done - 1);
                } else {
                    assert(items.skip(done).len() == 1);
                }
            }
            match parser.accept(cmd, &chars, pos, end, first) {
                Ok(next) => {
                    parser = next;
                },
                Err(e) => {
                    assert(before.accept_all(items, done) == Err::<ParserModel, ErrorModel>(e@));
                    return Err(e);
                },
            }
            assert(before.accept_all(items, done) == parser@.accept_all(items, done + 1));
            if end >= n {
                assert(parser@.accept_all(items, done + 1) == Ok::<ParserModel, ErrorModel>(
                    parser@,
                ));
                return Ok(parser);
            }
            pos = end + 1;
            first = false;
            proof {
                done = done + 1;
            }
        }
    }

    /// The value given for `field`, if any.
    pub fn get_value(&self, field: &str) -> (r: Option<&String>)
        ensures
            match r {
                Some(v) => self@.value(field@) == Some(v@),
                None => self@.value(field@) is None,
            },
    {
        let at: usize = self.position(field);
        if at < self.params.len() {
            match &self.params[at].value {
                Some(v) => Some(v),
                None => None,
            }
        } else {
            None
        }
    }

    /// The name `field` goes by in an error.
    fn label(&self, field: &str) -> (r: String)
        ensures
            r@ == self@.label(field@),
    {
        if field.unicode_len() == 0 {
            self.name.clone()
        } else {
            String::from_str(field)
        }
    }

    /// The number given for `field`, if any.
    pub fn get_number(&self, field: &str, max: u64) -> (r: Result<Option<u64>, ConfigError>)
        ensures
            match r {
                Ok(n) => self@.number(field@, max) == Ok::<Option<u64>, ErrorModel>(n),
                Err(e) => self@.number(field@, max) == Err::<Option<u64>, ErrorModel>(e@),
            },
    {
        match self.get_value(field) {
            None => Ok(None),
            Some(raw) => {
                let chars: Vec<char> = chars_of(raw.as_str());
                match parse_decimal(&chars, max) {
                    Some(n) => Ok(Some(n)),
                    None => Err(ConfigError::ConvertValueFailed(self.label(field), raw.clone())),
                }
            },
        }
    }

    /// The switch given for `field`, if any.
    pub fn get_switch(&self, field: &str) -> (r: Result<Option<bool>, ConfigError>)
        ensures
            match r {
                Ok(b) => self@.switch(field@) == Ok::<Option<bool>, ErrorModel>(b),
                Err(e) => self@.switch(field@) == Err::<Option<bool>, ErrorModel>(e@),
            },
    {
        match self.get_value(field) {
            None => Ok(None),
            Some(raw) => match parse_switch(raw.as_str()) {
                Some(b) => Ok(Some(b)),
                None => Err(ConfigError::ConvertValueFailed(self.label(field), raw.clone())),
            },
        }
    }
}

} // verus!

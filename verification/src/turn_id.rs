//! Fresh names for turns.
use vstd::prelude::*;

verus! {

/// Whether a character is a lower-case hexadecimal digit.
pub open spec fn is_hex_digit(c: char) -> bool {
    '0' <= c <= '9' || 'a' <= c <= 'f'
}

/// Whether a text is a random UUID in its hyphenated form: groups of 8, 4, 4, 4
/// and 12 lower-case hexadecimal digits, the third of which starts with the
/// version, 4, and the fourth with the variant, one of 8, 9, a and b.
pub open spec fn is_random_uuid(id: Seq<char>) -> bool {
    &&& id.len() == 36
    &&& forall|i: int|
        0 <= i < 36 ==> if i == 8 || i == 13 || i == 18 || i == 23 {
            #[trigger] id[i] == '-'
        } else {
            is_hex_digit(id[i])
        }
    &&& id[14] == '4'
    &&& id[19] == '8' || id[19] == '9' || id[19] == 'a' || id[19] == 'b'
}

/// `Uuid::new_v4` of the `uuid` crate, and `to_string` on what it returns: some
/// version 4 UUID in lower-case hyphenated form. Which one it is, chance
/// decides. `new_v4` panics where the machine can give no random bytes.
#[verifier::external_body]
fn uuid_new_v4() -> (id: String)
    ensures
        is_random_uuid(id@),
{
    uuid::Uuid::new_v4().to_string()
}

/// A fresh name for a turn.
pub fn new_turn_sub_id() -> (id: String)
    ensures
        is_random_uuid(id@),
{
    uuid_new_v4()
}

} // verus!

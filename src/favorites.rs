use vstd::prelude::*;
use vstd::string::StrSliceExecFns;
use vstd::utf8::{decode_utf8, encode_utf8, valid_utf8};
use crate::codec::{
    check_discriminator, copy_range, has_discriminator, le32, le64, lemma_le32_round_trip,
    lemma_le64_round_trip, overwrite_prefix, push_bytes, push_u32, push_u64, read_le32, read_le64,
    read_u32, read_u64, text_from_utf8, write_prefix,
};
use crate::derivation::{derive_address, program_address_of, seeds_for};
use crate::error::ProgramError;
use crate::identity::Identity;
use crate::lifecycle::{obtain_or_create, obtain_outcome, obtained, AccountRef, AccountView};

verus! {

broadcast use vstd::utf8::group_utf8_lib;

/// Discriminator of a stored `Favorites`.
pub const FAVORITES_DISCRIMINATOR: u64 = 0x1b3060ac1930cd2c;

/// Largest encoded length, in bytes, of a favorite color.
pub const MAX_COLOR_LEN: usize = 50;

/// Bytes reserved for a `Favorites` account: the discriminator, the number,
/// the color's length prefix and its longest encoding.
pub const FAVORITES_SPACE: usize = 70;

/// The namespace tag of favorites addresses: the ASCII bytes of `favorites`.
pub open spec fn favorites_seed() -> Seq<u8> {
    seq![102u8, 97u8, 118u8, 111u8, 114u8, 105u8, 116u8, 101u8, 115u8]
}

/// The namespace tag of favorites addresses.
pub fn favorites_seed_bytes() -> (r: Vec<u8>)
    ensures
        r@ == favorites_seed(),
{
    let r: Vec<u8> = vec![102u8, 97u8, 118u8, 111u8, 114u8, 105u8, 116u8, 101u8, 115u8];
    assert(r@ =~= favorites_seed());
    r
}

/// A user's favorite number and color.
#[derive(Debug)]
pub struct Favorites {
    pub number: u64,
    pub color: String,
}

/// The plain value of a `Favorites`.
pub struct FavoritesView {
    pub number: u64,
    pub color: Seq<char>,
}

impl View for Favorites {
    type V = FavoritesView;

    open spec fn view(&self) -> FavoritesView {
        FavoritesView { number: self.number, color: self.color@ }
    }
}

/// The stored bytes of a number and of text already encoded as `text`.
pub open spec fn encode_favorites_bytes(number: u64, text: Seq<u8>) -> Seq<u8> {
    le64(FAVORITES_DISCRIMINATOR) + le64(number) + le32(text.len() as u32) + text
}

/// The stored bytes of favorites holding `number` and `color`.
pub open spec fn encode_favorites(number: u64, color: Seq<char>) -> Seq<u8> {
    encode_favorites_bytes(number, encode_utf8(color))
}

/// The favorites stored in `b`, or why `b` holds none.
pub open spec fn decode_favorites(b: Seq<u8>) -> Result<FavoritesView, ProgramError> {
    if !has_discriminator(b, FAVORITES_DISCRIMINATOR) {
        Err(ProgramError::DiscriminatorMismatch)
    } else if b.len() < 20 {
        Err(ProgramError::BufferTooShort)
    } else if read_le32(b, 16) > MAX_COLOR_LEN || read_le32(b, 16) > b.len() - 20 {
        Err(ProgramError::LengthOverflow)
    } else if !valid_utf8(b.subrange(20, 20 + read_le32(b, 16))) {
        Err(ProgramError::InvalidText)
    } else {
        Ok(
            FavoritesView {
                number: read_le64(b, 8),
                color: decode_utf8(b.subrange(20, 20 + read_le32(b, 16))),
            },
        )
    }
}

/// Favorites read back as written, whatever bytes follow them.
pub proof fn lemma_favorites_round_trip(number: u64, color: Seq<char>, rest: Seq<u8>)
    requires
        encode_utf8(color).len() <= MAX_COLOR_LEN,
    ensures
        decode_favorites(encode_favorites(number, color) + rest) == Ok::<
            FavoritesView,
            ProgramError,
        >(FavoritesView { number, color }),
{
    let text = encode_utf8(color);
    let b = encode_favorites(number, color) + rest;
    let d = le64(FAVORITES_DISCRIMINATOR);
    assert(b.subrange(0, 8) =~= d);
    lemma_le64_round_trip(number, le32(text.len() as u32) + text + rest, d);
    assert(d + le64(number) + (le32(text.len() as u32) + text + rest) =~= b);
    lemma_le32_round_trip(text.len() as u32, text + rest, d + le64(number));
    assert(d + le64(number) + le32(text.len() as u32) + (text + rest) =~= b);
    assert(b.subrange(20, 20 + text.len() as int) =~= text);
}

impl Favorites {
    /// The record's stored bytes: discriminator, number, the color's length
    /// and its UTF-8 bytes. Fails when the color is longer than its maximum.
    pub fn encode(&self) -> (r: Result<Vec<u8>, ProgramError>)
        ensures
            encode_utf8(self.color@).len() <= MAX_COLOR_LEN ==> (r matches Ok(bytes)
                && bytes@ == encode_favorites(self.number, self.color@)),
            encode_utf8(self.color@).len() > MAX_COLOR_LEN ==> r == Err::<Vec<u8>, ProgramError>(
                ProgramError::LengthOverflow,
            ),
    {
        let text = self.color.as_str().as_bytes_vec();
        if text.len() > MAX_COLOR_LEN {
            return Err(ProgramError::LengthOverflow);
        }
        Ok(encode_favorites_parts(self.number, text.as_slice()))
    }

    /// Reads favorites back from their stored bytes.
    pub fn decode(data: &[u8]) -> (r: Result<Favorites, ProgramError>)
        ensures
            match decode_favorites(data@) {
                Ok(v) => r matches Ok(f) && f@ == v,
                Err(e) => r matches Err(re) && re == e,
            },
    {
        check_discriminator(data, FAVORITES_DISCRIMINATOR)?;
        if data.len() < 20 {
            return Err(ProgramError::BufferTooShort);
        }
        let len = read_u32(data, 16);
        if len as usize > MAX_COLOR_LEN || len as usize > data.len() - 20 {
            return Err(ProgramError::LengthOverflow);
        }
        let text = copy_range(data, 20, 20 + len as usize);
        match text_from_utf8(text) {
            Some(color) => Ok(Favorites { number: read_u64(data, 8), color }),
            None => Err(ProgramError::InvalidText),
        }
    }
}

/// The stored bytes of `number` and already encoded text.
fn encode_favorites_parts(number: u64, text: &[u8]) -> (r: Vec<u8>)
    requires
        text@.len() <= MAX_COLOR_LEN,
    ensures
        r@ == encode_favorites_bytes(number, text@),
{
    let mut r: Vec<u8> = Vec::new();
    push_u64(&mut r, FAVORITES_DISCRIMINATOR);
    push_u64(&mut r, number);
    push_u32(&mut r, text.len() as u32);
    push_bytes(&mut r, text);
    r
}

/// The accounts of `set_favorites`: the owner, who signs and pays, and the
/// owner's favorites record.
pub struct SetFavorites {
    pub user: AccountRef,
    pub favorites: AccountRef,
}

/// The address and nonce of `user`'s favorites under `program`.
pub open spec fn favorites_address(user: AccountView, program: Seq<u8>) -> Option<(Seq<u8>, u8)> {
    program_address_of(seeds_for(favorites_seed(), user.key), program)
}

/// The owner and record after `set_favorites`, or why it fails.
pub open spec fn set_favorites_effect(
    program: Seq<u8>,
    user: AccountView,
    favorites: AccountView,
    number: u64,
    color: Seq<char>,
) -> Result<(AccountView, AccountView), ProgramError> {
    if !user.is_signer {
        Err(ProgramError::Unauthorized)
    } else {
        match favorites_address(user, program) {
            None => Err(ProgramError::DerivationFailure),
            Some((address, _)) => if favorites.key != address {
                Err(ProgramError::Unauthorized)
            } else if encode_utf8(color).len() > MAX_COLOR_LEN {
                Err(ProgramError::LengthOverflow)
            } else {
                match obtain_outcome(favorites, user, program, address, FAVORITES_DISCRIMINATOR, 70) {
                    Err(e) => Err(e),
                    Ok(_) => {
                        let (f, u) = obtained(
                            favorites,
                            user,
                            program,
                            address,
                            FAVORITES_DISCRIMINATOR,
                            70,
                            encode_favorites(0, Seq::empty()),
                        );
                        match decode_favorites(f.data) {
                            Err(e) => Err(e),
                            Ok(_) => Ok(
                                (
                                    u,
                                    AccountView {
                                        data: overwrite_prefix(f.data, encode_favorites(number, color)),
                                        ..f
                                    },
                                ),
                            ),
                        }
                    },
                }
            },
        }
    }
}

/// Stores the caller's favorite number and color in the caller's favorites
/// record, creating the record first, at the caller's expense, where it does
/// not exist yet. An existing record is overwritten in place.
pub fn set_favorites(program_id: &Identity, ctx: &mut SetFavorites, number: u64, color: String) -> (r:
    Result<(), ProgramError>)
    ensures
        match set_favorites_effect(program_id@, old(ctx).user@, old(ctx).favorites@, number, color@) {
            Ok((u, f)) => r is Ok && final(ctx).user@ == u && final(ctx).favorites@ == f,
            Err(e) => r == Err::<(), ProgramError>(e) && final(ctx).user@ == old(ctx).user@
                && final(ctx).favorites@ == old(ctx).favorites@,
        },
        !old(ctx).user.is_signer ==> r == Err::<(), ProgramError>(ProgramError::Unauthorized)
            && final(ctx).favorites@ == old(ctx).favorites@,
        forall|a: Seq<u8>, n: u8|
            favorites_address(old(ctx).user@, program_id@) == Some((a, n)) && old(ctx).favorites@.key
                != a ==> r == Err::<(), ProgramError>(ProgramError::Unauthorized)
                && final(ctx).favorites@ == old(ctx).favorites@,
{
    if !ctx.user.is_signer {
        return Err(ProgramError::Unauthorized);
    }
    let seed = favorites_seed_bytes();
    let (address, _nonce) = derive_address(seed.as_slice(), &ctx.user.key, program_id)?;
    if !ctx.favorites.key.same_as(&address) {
        return Err(ProgramError::Unauthorized);
    }
    let record = Favorites { number, color };
    let bytes = record.encode()?;
    let empty: Vec<u8> = Vec::new();
    let default_record = encode_favorites_parts(0, empty.as_slice());
    proof {
        assert(encode_utf8(Seq::<char>::empty()) =~= empty@);
        lemma_favorites_round_trip(0, Seq::empty(), Seq::new(50, |i: int| 0u8));
    }
    obtain_or_create(
        &mut ctx.favorites,
        &mut ctx.user,
        program_id,
        &address,
        FAVORITES_DISCRIMINATOR,
        FAVORITES_SPACE,
        default_record.as_slice(),
    )?;
    Favorites::decode(ctx.favorites.data.as_slice())?;
    write_prefix(&mut ctx.favorites.data, bytes.as_slice());
    Ok(())
}

} // verus!

use vstd::prelude::*;
use crate::codec::{has_discriminator, le64, lemma_discriminators_exclusive};
use crate::counter::{decode_counter, encode_counter, COUNTER_DISCRIMINATOR};
use crate::error::ProgramError;
use crate::favorites::{decode_favorites, encode_favorites, FAVORITES_DISCRIMINATOR};
use crate::store_number::{decode_data_store, encode_data_store, DATA_STORE_DISCRIMINATOR};

verus! {

/// The record schemas that programs persist.
#[derive(Debug, Clone, Copy, PartialEq, Eq, Structural)]
pub enum Schema {
    Counter,
    Favorites,
    DataStore,
}

impl Schema {
    /// The discriminator that opens every record of the schema.
    pub open spec fn discriminator(self) -> u64 {
        match self {
            Schema::Counter => COUNTER_DISCRIMINATOR,
            Schema::Favorites => FAVORITES_DISCRIMINATOR,
            Schema::DataStore => DATA_STORE_DISCRIMINATOR,
        }
    }

    /// `b` opens with a record that this schema's encoder wrote.
    pub open spec fn wrote(self, b: Seq<u8>) -> bool {
        match self {
            Schema::Counter => exists|count: u64, rest: Seq<u8>|
                b == #[trigger] encode_counter(count).add(rest),
            Schema::Favorites => exists|number: u64, color: Seq<char>, rest: Seq<u8>|
                b == #[trigger] encode_favorites(number, color).add(rest),
            Schema::DataStore => exists|data: u64, rest: Seq<u8>|
                b == #[trigger] encode_data_store(data).add(rest),
        }
    }

    /// Whether reading `b` with this schema's decoder fails with `e`.
    pub open spec fn decode_fails_with(self, b: Seq<u8>, e: ProgramError) -> bool {
        match self {
            Schema::Counter => decode_counter(b) == Err::<crate::counter::Counter, ProgramError>(e),
            Schema::Favorites => decode_favorites(b) == Err::<
                crate::favorites::FavoritesView,
                ProgramError,
            >(e),
            Schema::DataStore => decode_data_store(b) == Err::<
                crate::store_number::DataStore,
                ProgramError,
            >(e),
        }
    }
}

/// Every record opens with its schema's discriminator.
pub proof fn lemma_written_has_discriminator(schema: Schema, b: Seq<u8>)
    requires
        schema.wrote(b),
    ensures
        has_discriminator(b, schema.discriminator()),
{
    match schema {
        Schema::Counter => {
            let (count, rest) = choose|count: u64, rest: Seq<u8>|
                b == #[trigger] encode_counter(count).add(rest);
            assert(b.subrange(0, 8) =~= le64(COUNTER_DISCRIMINATOR));
        },
        Schema::Favorites => {
            let (number, color, rest) = choose|number: u64, color: Seq<char>, rest: Seq<u8>|
                b == #[trigger] encode_favorites(number, color).add(rest);
            assert(b.subrange(0, 8) =~= le64(FAVORITES_DISCRIMINATOR));
        },
        Schema::DataStore => {
            let (data, rest) = choose|data: u64, rest: Seq<u8>|
                b == #[trigger] encode_data_store(data).add(rest);
            assert(b.subrange(0, 8) =~= le64(DATA_STORE_DISCRIMINATOR));
        },
    }
}

/// A buffer written by one schema is never read as a record of another: the
/// other schema's decoder fails with `DiscriminatorMismatch`.
pub proof fn lemma_schema_isolation(written: Schema, read: Schema, b: Seq<u8>)
    requires
        written != read,
        written.wrote(b),
    ensures
        read.decode_fails_with(b, ProgramError::DiscriminatorMismatch),
{
    lemma_written_has_discriminator(written, b);
    lemma_discriminators_exclusive(b, written.discriminator(), read.discriminator());
}

} // verus!

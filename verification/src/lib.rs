pub mod cipher;
pub mod error;
pub mod keystruct;
pub mod layout;
pub mod primitives;
pub mod types;
pub mod util;

pub use error::Error;
pub use keystruct::{
    assemble_keystruct, gen_keystruct, KeynumPK, KeynumSK, PubkeyStruct, SeckeyStruct, SigStruct,
    SIG_DEFAULT_CONFIG_DIR_ENV_VAR, SIG_SUFFIX, VERSION_STRING,
};
pub use util::{load_usize_le, store_usize_le};

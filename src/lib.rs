//! A query launcher's core: engine dispatch by prefix, suggestion handling,
//! cyclic selection and line reconstruction.
pub mod config;
pub mod engine;
pub mod keys;
pub mod registry;
pub mod session;
pub mod suggestion;
pub mod text;
pub mod util;

pub use config::{
    get_default_config, logical_action, validate_config, BindableAction, Config,
};
pub use engine::{
    input_line_from_selection, match_engine, reconstruct, Color, Engine, Prompt, ShortPrompt,
    SuggestionAdapterName,
};
pub use keys::{ConfigError, KeyBind, KeyEvent};
pub use registry::Registry;
pub use session::{FetchRequest, Session, Step, UiMsg};
pub use suggestion::{
    read_suggestions, AdapterError, JsonPathAdapter, OpenSearchAdapter, SuggestionAdapter,
    Suggestions,
};
pub use util::{is_default, truncate_from_end};

//! A terminal planet viewer's verified core: colours and escape sequences, the
//! planet catalogue and generated names, frame assembly and overlays, the
//! keyboard controls and command-line planet choice, and a model of the terminal
//! that reads the escape-sequence stream.

pub mod controls;
pub mod palette;
pub mod planets;
pub mod renderer;
pub mod seeds;
pub mod terminal;
pub mod text;

pub use controls::{parse_planet_arg, Action, InputState, Key, PlanetArg};
pub use palette::Rgb;
pub use planets::{gen_name, PlanetId, Syllable};
pub use renderer::{flush, pixels_to_cells, Cell};

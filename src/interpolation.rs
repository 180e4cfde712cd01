pub mod catmull_rom_spline;
pub mod hermite_spline;

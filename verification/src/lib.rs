pub mod air_laws;
pub mod air_loop;
pub mod air_side;
pub mod calendar;
pub mod chain;
pub mod clip_laws;
pub mod control;
pub mod control_laws;
pub mod coupling;
pub mod device_laws;
pub mod dual_duct;
pub mod energy;
pub mod energy_laws;
pub mod fixed;
pub mod flow_laws;
pub mod frame_laws;
pub mod geometry;
pub mod gshp;
pub mod gshp_laws;
pub mod loop_results;
pub mod loop_step;
pub mod model;
pub mod number_laws;
pub mod paths;
pub mod plane_laws;
pub mod plant;
pub mod plant_laws;
pub mod plant_order;
pub mod ray_laws;
pub mod rounding;
pub mod scalar;
pub mod series_laws;
pub mod services;
pub mod setup;
pub mod shading;
pub mod shading_laws;
pub mod signal_laws;
pub mod signals;
pub mod site_laws;
pub mod sizing;
pub mod sizing_laws;
pub mod sky_laws;
pub mod step_laws;
pub mod sun_laws;
pub mod supply_laws;
pub mod table;
pub mod text;
pub mod unit_laws;
pub mod vav;
pub mod zone_report;
pub mod zones;

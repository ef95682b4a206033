pub mod deferred_pass;
pub mod lighting_pass;
pub mod present_pass;

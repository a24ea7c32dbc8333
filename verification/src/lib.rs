//! Master-side EtherCAT building blocks: the PDU wire format, the table of
//! in-flight PDU exchanges, the EEPROM section reader, the slave configuration
//! planner and the process data image of a group of slaves.

pub mod command;
pub mod eeprom;
pub mod error;
pub mod frame;
pub mod pdi;
pub mod pdu_loop;
pub mod register;
pub mod slave;
pub mod slave_group;
pub mod slave_state;
pub mod state_wait;

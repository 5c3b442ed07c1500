#![allow(non_snake_case, non_camel_case_types)]
pub mod fly_result;
pub mod text;
pub mod digest;
pub mod bft_message;
pub mod bft_node;
pub mod bft_laws;
pub mod communication;
pub mod command_executor;
pub mod pbft_client;
pub mod fly_coin;
pub mod fly_account;
pub mod flycoin;
pub mod flyaccount;
pub mod basic_coin;
pub mod conse_token;
pub mod conselexer;
pub mod consesyntax;
pub mod consesemantic;

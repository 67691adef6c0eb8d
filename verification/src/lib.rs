//! A verified model of a microfinance lending platform: lending pools, loans,
//! insurance, reputation, impact metrics and interest rates.
pub mod decimal;
pub mod set_sum;
pub mod vault;
pub mod reputation_governance;
pub mod mock_ai_oracle;
pub mod mock_economic_oracle;
pub mod ai_credit_scorer;
pub mod dynamic_interest_calculator;
pub mod impact_tracker;
pub mod insurance_pool;
pub mod cross_chain_liquidity_pool;
pub mod microfinance_pool;
pub mod laws;

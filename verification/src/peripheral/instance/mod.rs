pub mod ns16500a;

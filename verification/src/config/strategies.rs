pub mod env_config_loader;
